//! The adapter SDK: identities, capabilities and metadata of the adapters
//! that render tool-specific artifacts from resolved plans, and the registry
//! that holds them.

pub mod artifact;
pub mod message;
pub mod registry;

use vstd::prelude::*;

use crate::resolve::ResolvedPlan;

verus! {

/// Stable identifier of an adapter.
#[derive(Clone, Copy, Debug, PartialEq, Eq, PartialOrd, Ord, Hash)]
pub struct AdapterId(&'static str);

impl View for AdapterId {
    type V = Seq<char>;

    closed spec fn view(&self) -> Seq<char> {
        self.0@
    }
}

impl AdapterId {
    pub fn new(value: &'static str) -> (r: Self)
        ensures
            r@ == value@,
    {
        AdapterId(value)
    }

    pub fn as_str(self) -> (r: &'static str)
        ensures
            r@ == self@,
    {
        self.0
    }
}

/// Broad capability exposed by an adapter.
#[derive(Clone, Copy, Debug, PartialEq, Eq, Structural)]
#[non_exhaustive]
pub enum Capability {
    AuthoritativeDns,
    RecursiveDns,
    HostEnvironment,
    HostNetworking,
    NetworkMounts,
    ReverseProxy,
    OverlayRouting,
    Firewall,
    CertificateIntent,
    DockerNetworking,
    ProxmoxGuests,
    ProxmoxSdn,
    ProxmoxStorage,
    SshClientConfig,
    NasPermissions,
    ExternalIngress,
    CloudflareDns,
    CloudflareTunnel,
}

/// Why an adapter cannot work with a plan.
#[derive(Debug)]
pub enum AdapterError {
    TargetHostRequired { adapter: String },
    NoProxyEntries,
    MultipleProxyHosts,
    NoProxiesForHost { host: String },
    TlsWithoutCertificate { proxy: String },
    NotProxmoxProvider { host: String },
    NoBridges { host: String },
    ManagementBridgeCount { host: String },
    OutsideRoot { path: String, root: String },
    UnknownProxmoxHost { host: String },
    NoGuestsOnHost { host: String },
    Plan(crate::plan::PlanError),
}

/// Human- and machine-readable adapter metadata.
#[derive(Debug)]
pub struct AdapterMetadata {
    pub id: AdapterId,
    pub name: &'static str,
    pub description: &'static str,
    pub capabilities: Vec<Capability>,
}

/// One file emitted by an adapter, relative to the adapter output root.
#[derive(Debug)]
pub struct Artifact {
    pub relative_path: String,
}

/// What rendering one adapter produced.
#[derive(Debug)]
pub struct AdapterOutput {
    pub adapter: AdapterId,
    pub root: String,
    pub target_host: Option<String>,
    pub artifacts: Vec<Artifact>,
}

/// Shared input available to every adapter: the resolved plan, and the
/// host (or client, or NAS) to render for, if any.
pub struct AdapterContext<'a, 'plan> {
    pub plan: &'a ResolvedPlan<'plan>,
    pub target_host: Option<&'a str>,
}

impl<'a, 'plan> AdapterContext<'a, 'plan> {
    /// A context for the whole plan, with no target.
    pub fn new(plan: &'a ResolvedPlan<'plan>) -> (r: Self)
        ensures
            r.plan == plan,
            r.target_host is None,
    {
        AdapterContext { plan, target_host: None }
    }

    /// The same context, rendering for `host`.
    pub fn for_host(self, host: &'a str) -> (r: Self)
        ensures
            r.plan == self.plan,
            r.target_host == Some(host),
    {
        AdapterContext { plan: self.plan, target_host: Some(host) }
    }
}

} // verus!
