//! The resolution boundary shared by adapters: the declared configuration,
//! the resolved paths and any explicitly collected observations, from which
//! adapters ask for resolved plans instead of reading the configuration
//! themselves.

use vstd::prelude::*;

use crate::model::ConfigBundle;
use crate::observe::ObservationSet;
use crate::paths::NetweftPaths;
use crate::plan::dns::{dns_plan_of, dns_plan_ok, dns_plan_requires, resolve_dns_plan, ResolvedDnsPlan};
use crate::plan::env::{env_entries, env_plan_requires, resolve_env_plan, vars_match, ResolvedEnvPlan};
use crate::plan::PlanError;

verus! {

/// Shared resolution input for all adapters.
pub struct ResolvedPlan<'a> {
    config: &'a ConfigBundle,
    paths: &'a NetweftPaths,
    observations: ObservationSet,
}

impl<'a> ResolvedPlan<'a> {
    /// The declared configuration.
    pub closed spec fn bundle(&self) -> ConfigBundle {
        *self.config
    }

    /// The resolved paths.
    pub closed spec fn dirs(&self) -> NetweftPaths {
        *self.paths
    }

    /// The attached observations.
    pub closed spec fn observed(&self) -> ObservationSet {
        self.observations
    }

    /// A plan from the declared configuration only, with no observations.
    pub fn new(config: &'a ConfigBundle, paths: &'a NetweftPaths) -> (r: Self)
        ensures
            r.bundle() == *config,
            r.dirs() == *paths,
            r.observed().wf(),
            r.observed().hosts@.len() == 0,
            r.observed().metadata@.len() == 0,
    {
        ResolvedPlan { config, paths, observations: ObservationSet::empty() }
    }

    /// The same plan with the given observations attached.
    pub fn with_observations(self, observations: ObservationSet) -> (r: Self)
        ensures
            r.bundle() == self.bundle(),
            r.dirs() == self.dirs(),
            r.observed() == observations,
    {
        ResolvedPlan { config: self.config, paths: self.paths, observations }
    }

    pub fn config(&self) -> (r: &ConfigBundle)
        ensures
            *r == self.bundle(),
    {
        self.config
    }

    pub fn paths(&self) -> (r: &NetweftPaths)
        ensures
            *r == self.dirs(),
    {
        self.paths
    }

    pub fn observations(&self) -> (r: &ObservationSet)
        ensures
            *r == self.observed(),
    {
        &self.observations
    }

    /// The DNS plan of the configuration.
    pub fn dns(&self) -> (r: Result<ResolvedDnsPlan, PlanError>)
        requires
            dns_plan_requires(&self.bundle()),
        ensures
            r is Ok <==> dns_plan_ok(&self.bundle()),
            r matches Ok(p) ==> dns_plan_of(&self.bundle(), p),
    {
        resolve_dns_plan(self.config)
    }

    /// The environment plan of `host`.
    pub fn host_environment(&self, host: &str) -> (r: Result<ResolvedEnvPlan, PlanError>)
        requires
            env_plan_requires(&self.bundle(), host@),
        ensures
            r is Ok <==> env_entries(&self.bundle(), &self.dirs(), host@) is Some,
            r matches Ok(p) ==> p.host@ == host@ && vars_match(p.variables@, env_entries(&self.bundle(), &self.dirs(), host@)->0),
    {
        resolve_env_plan(self.config, self.paths, host)
    }
}

} // verus!
