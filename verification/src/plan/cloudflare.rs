//! Publishing services through a Cloudflare tunnel.

use vstd::prelude::*;

use crate::model::{ConfigBundle, ExternalIngressMode, LocationExternalIngress};
use crate::ordered::{insert_sorted, lemma_sorted_unique, lemma_table_map_at, sorted_keys, table_map};
use crate::plan::PlanError;
use crate::table::{find, key_index, lookup, opt_text, texts};
use crate::text::{chars_of, owned, str_eq, text_lt};

verus! {

/// The Cloudflare tunnel plan of the location.
#[derive(Debug)]
pub struct ResolvedCloudflarePlan {
    pub location: String,
    pub mode: String,
    pub provider_name: String,
    pub zone: String,
    pub zone_id: String,
    pub account_id: String,
    pub tunnel_api_token_env: String,
    pub dns_api_token_env: String,
    pub tunnel_name: String,
    pub connector_host: String,
    pub origin: String,
    pub origin_tls_verify: bool,
    pub hostnames: Vec<String>,
}

/// The tunnel used: the requested one, else the one the location selects.
pub open spec fn chosen_tunnel(ing: LocationExternalIngress, requested: Option<Seq<char>>) -> Option<Seq<char>> {
    match requested {
        Some(t) => Some(t),
        None => opt_text(ing.tunnel),
    }
}

/// `h` is a name strictly under `zone`.
pub open spec fn is_subdomain(h: Seq<char>, zone: Seq<char>) -> bool {
    h.len() > zone.len() && h[h.len() - zone.len() - 1] == '.' && h.skip(h.len() - zone.len()) == zone
}

/// The Cloudflare plan resolves: the location publishes through a tunnel;
/// the tunnel used is the one it selects (if it selects one); provider and
/// tunnel exist and agree; the connector host is known and enabled; and the
/// tunnel publishes at least one hostname, each under the provider's zone.
pub open spec fn cloudflare_ok(b: &ConfigBundle, requested: Option<Seq<char>>) -> bool {
    match b.location.external_ingress {
        None => false,
        Some(ing) => {
            &&& ing.mode == ExternalIngressMode::CloudflareTunnel
            &&& chosen_tunnel(ing, requested) matches Some(t) && {
                &&& (ing.tunnel matches Some(sel) ==> sel@ == t)
                &&& lookup(b.cloudflare.providers@, ing.provider@) matches Some(p) && lookup(b.cloudflare.tunnels@, t) matches Some(tn) && {
                    &&& tn.provider@ == ing.provider@
                    &&& lookup(b.inventory.hosts@, tn.connector_host@) matches Some(h) && h.enabled
                    &&& tn.hostnames@.len() > 0
                    &&& forall|i: int| 0 <= i < tn.hostnames@.len() ==> is_subdomain(#[trigger] tn.hostnames@[i]@, p.zone@)
                }
            }
        },
    }
}

/// Why the Cloudflare plan is refused, checked in this order: no ingress, a
/// disabled one, direct mode, no tunnel chosen, another tunnel than the
/// location selects, unknown provider, unknown tunnel, a tunnel of another
/// provider, an unknown or disabled connector, a tunnel without hostnames,
/// and last a hostname outside the zone.
pub open spec fn cloudflare_refusal(b: &ConfigBundle, requested: Option<Seq<char>>, e: PlanError) -> bool {
    match b.location.external_ingress {
        None => e is NoExternalIngress,
        Some(ing) => if ing.mode == ExternalIngressMode::Disabled {
            e is ExternalIngressDisabled
        } else if ing.mode == ExternalIngressMode::CloudflareDirect {
            e is CloudflareDirectUnsupported
        } else {
            match chosen_tunnel(ing, requested) {
                None => e is NoTunnelSelected,
                Some(t) => if ing.tunnel matches Some(sel) && sel@ != t {
                    e is TunnelNotSelected
                } else if lookup(b.cloudflare.providers@, ing.provider@) is None {
                    e is UnknownCloudflareProvider
                } else {
                    match lookup(b.cloudflare.tunnels@, t) {
                        None => e is UnknownCloudflareTunnel,
                        Some(tn) => if tn.provider@ != ing.provider@ {
                            e is TunnelProviderMismatch
                        } else {
                            match lookup(b.inventory.hosts@, tn.connector_host@) {
                                None => e is UnknownConnectorHost,
                                Some(h) => if !h.enabled {
                                    e is ConnectorHostDisabled
                                } else if tn.hostnames@.len() == 0 {
                                    e is TunnelWithoutHostnames
                                } else {
                                    e is HostnameOutsideZone
                                },
                            }
                        },
                    }
                },
            }
        },
    }
}

/// `p` is the Cloudflare plan: the location, provider and tunnel settings,
/// and the tunnel's hostnames, each once, in ascending order.
pub open spec fn cloudflare_plan_of(b: &ConfigBundle, requested: Option<Seq<char>>, p: ResolvedCloudflarePlan) -> bool {
    let ing = b.location.external_ingress->0;
    let t = chosen_tunnel(ing, requested)->0;
    let pr = lookup(b.cloudflare.providers@, ing.provider@)->0;
    let tn = lookup(b.cloudflare.tunnels@, t)->0;
    &&& p.location@ == b.location.name@
    &&& p.mode@ == "cloudflare-tunnel"@
    &&& p.provider_name@ == ing.provider@
    &&& p.zone@ == pr.zone@
    &&& p.zone_id@ == pr.zone_id@
    &&& p.account_id@ == pr.account_id@
    &&& p.tunnel_api_token_env@ == pr.tunnel_api_token_env@
    &&& p.dns_api_token_env@ == pr.dns_api_token_env@
    &&& p.tunnel_name@ == t
    &&& p.connector_host@ == tn.connector_host@
    &&& p.origin@ == tn.origin@
    &&& p.origin_tls_verify == tn.origin_tls_verify
    &&& forall|i: int, j: int| 0 <= i < j < p.hostnames@.len() ==> text_lt(#[trigger] p.hostnames@[i]@, #[trigger] p.hostnames@[j]@)
    &&& texts(p.hostnames@).to_set() == texts(tn.hostnames@).to_set()
}

fn is_subdomain_exec(h: &str, zone: &str) -> (r: bool)
    ensures
        r == is_subdomain(h@, zone@),
{
    let hc = chars_of(h);
    let zc = chars_of(zone);
    if hc.len() <= zc.len() {
        return false;
    }
    let off: usize = hc.len() - zc.len();
    if hc[off - 1] != '.' {
        return false;
    }
    let mut k: usize = 0;
    while k < zc.len()
        invariant
            hc@ == h@,
            zc@ == zone@,
            off + zc@.len() == hc@.len(),
            hc@.len() == hc.len(),
            k <= zc@.len(),
            forall|m: int| 0 <= m < k ==> hc@[off + m] == zc@[m],
        decreases zc@.len() - k,
    {
        if hc[off + k] != zc[k] {
            assert(h@.skip(off as int)[k as int] != zone@[k as int]);
            return false;
        }
        k = k + 1;
    }
    assert(h@.skip(off as int) =~= zone@);
    true
}

/// Resolves how the location publishes services through a Cloudflare
/// tunnel, using `requested_tunnel` if given.
#[verifier::loop_isolation(false)]
pub fn resolve_cloudflare_plan(b: &ConfigBundle, requested_tunnel: Option<&str>) -> (r: Result<ResolvedCloudflarePlan, PlanError>)
    requires
        b.wf(),
    ensures
        r is Ok <==> cloudflare_ok(b, match requested_tunnel { Some(t) => Some(t@), None => None }),
        r matches Ok(p) ==> cloudflare_plan_of(b, match requested_tunnel { Some(t) => Some(t@), None => None }, p),
        r matches Err(e) ==> cloudflare_refusal(b, match requested_tunnel { Some(t) => Some(t@), None => None }, e),
{
    let ghost req = match requested_tunnel { Some(t) => Some(t@), None => None };
    let ing = match &b.location.external_ingress {
        None => {
            return Err(PlanError::NoExternalIngress { location: owned(b.location.name.as_str()) });
        },
        Some(i) => i,
    };
    match ing.mode {
        ExternalIngressMode::Disabled => {
            return Err(PlanError::ExternalIngressDisabled { location: owned(b.location.name.as_str()) });
        },
        ExternalIngressMode::CloudflareDirect => {
            return Err(PlanError::CloudflareDirectUnsupported);
        },
        ExternalIngressMode::CloudflareTunnel => {},
    }
    let tunnel_name: &str = match requested_tunnel {
        Some(t) => t,
        None => match &ing.tunnel {
            Some(t) => t.as_str(),
            None => {
                return Err(PlanError::NoTunnelSelected);
            },
        },
    };
    assert(chosen_tunnel(*ing, req) == Some(tunnel_name@));
    match &ing.tunnel {
        Some(sel) => {
            if !str_eq(sel.as_str(), tunnel_name) {
                return Err(PlanError::TunnelNotSelected {
                    location: owned(b.location.name.as_str()),
                    selected: owned(sel.as_str()),
                    requested: owned(tunnel_name),
                });
            }
        },
        None => {},
    }
    let pi = match find(&b.cloudflare.providers, ing.provider.as_str()) {
        None => {
            return Err(PlanError::UnknownCloudflareProvider { provider: owned(ing.provider.as_str()) });
        },
        Some(pi) => pi,
    };
    let ti = match find(&b.cloudflare.tunnels, tunnel_name) {
        None => {
            return Err(PlanError::UnknownCloudflareTunnel { tunnel: owned(tunnel_name) });
        },
        Some(ti) => ti,
    };
    let provider = &b.cloudflare.providers[pi].1;
    let tunnel = &b.cloudflare.tunnels[ti].1;
    if !str_eq(tunnel.provider.as_str(), ing.provider.as_str()) {
        return Err(PlanError::TunnelProviderMismatch {
            tunnel: owned(tunnel_name),
            provider: owned(tunnel.provider.as_str()),
            location: owned(b.location.name.as_str()),
            selected: owned(ing.provider.as_str()),
        });
    }
    let hi = match find(&b.inventory.hosts, tunnel.connector_host.as_str()) {
        None => {
            return Err(PlanError::UnknownConnectorHost { host: owned(tunnel.connector_host.as_str()) });
        },
        Some(hi) => hi,
    };
    if !b.inventory.hosts[hi].1.enabled {
        return Err(PlanError::ConnectorHostDisabled { host: owned(tunnel.connector_host.as_str()) });
    }
    if tunnel.hostnames.len() == 0 {
        return Err(PlanError::TunnelWithoutHostnames { tunnel: owned(tunnel_name) });
    }
    // The hostnames, each once, ascending.
    let ghost hs = tunnel.hostnames@;
    let mut set: Vec<(String, ())> = Vec::new();
    let mut k: usize = 0;
    while k < tunnel.hostnames.len()
        invariant
            hs == tunnel.hostnames@,
            k <= hs.len(),
            sorted_keys(set@),
            forall|z: Seq<char>| #[trigger] table_map(set@).dom().contains(z) <==> (exists|m: int| 0 <= m < k && #[trigger] hs[m]@ == z),
        decreases hs.len() - k,
    {
        insert_sorted(&mut set, owned(tunnel.hostnames[k].as_str()), ());
        proof {
            assert forall|z: Seq<char>| #[trigger] table_map(set@).dom().contains(z) <==> (exists|m: int| 0 <= m < k + 1 && #[trigger] hs[m]@ == z) by {
                if z == hs[k as int]@ {
                    assert(hs[k as int]@ == z);
                }
            }
        }
        k = k + 1;
    }
    proof {
        lemma_sorted_unique(set@);
    }
    let mut hostnames: Vec<String> = Vec::new();
    let mut j: usize = 0;
    while j < set.len()
        invariant
            j <= set@.len(),
            hs == tunnel.hostnames@,
            hostnames@.len() == j,
            forall|m: int| 0 <= m < j ==> (#[trigger] hostnames@[m])@ == set@[m].0@,
            forall|m: int| 0 <= m < j ==> is_subdomain(#[trigger] set@[m].0@, provider.zone@),
        decreases set@.len() - j,
    {
        if !is_subdomain_exec(set[j].0.as_str(), provider.zone.as_str()) {
            proof {
                lemma_table_map_at(set@, j as int);
                let m = choose|m: int| 0 <= m < hs.len() && #[trigger] hs[m]@ == set@[j as int].0@;
                assert(!is_subdomain(hs[m]@, provider.zone@));
            }
            return Err(PlanError::HostnameOutsideZone { hostname: owned(set[j].0.as_str()), zone: owned(provider.zone.as_str()) });
        }
        hostnames.push(owned(set[j].0.as_str()));
        j = j + 1;
    }
    proof {
        assert forall|i: int| 0 <= i < hs.len() implies is_subdomain(#[trigger] hs[i]@, provider.zone@) by {
            assert(table_map(set@).dom().contains(hs[i]@));
            let m = key_index(set@, hs[i]@);
        }
        assert forall|z: Seq<char>| texts(hostnames@).to_set().contains(z) <==> texts(hs).to_set().contains(z) by {
            if texts(hostnames@).to_set().contains(z) {
                let m = choose|m: int| 0 <= m < texts(hostnames@).len() && texts(hostnames@)[m] == z;
                lemma_table_map_at(set@, m);
                let w = choose|w: int| 0 <= w < hs.len() && #[trigger] hs[w]@ == z;
                assert(texts(hs)[w] == z);
            }
            if texts(hs).to_set().contains(z) {
                let w = choose|w: int| 0 <= w < texts(hs).len() && texts(hs)[w] == z;
                assert(hs[w]@ == z);
                assert(table_map(set@).dom().contains(z));
                let m = key_index(set@, z);
                assert(texts(hostnames@)[m] == z);
            }
        }
        assert(texts(hostnames@).to_set() =~= texts(hs).to_set());
        assert forall|a: int, c: int| 0 <= a < c < hostnames@.len() implies text_lt(#[trigger] hostnames@[a]@, #[trigger] hostnames@[c]@) by {
            assert(text_lt(set@[a].0@, set@[c].0@));
        }
    }
    Ok(ResolvedCloudflarePlan {
        location: owned(b.location.name.as_str()),
        mode: owned(ing.mode.as_str()),
        provider_name: owned(ing.provider.as_str()),
        zone: owned(provider.zone.as_str()),
        zone_id: owned(provider.zone_id.as_str()),
        account_id: owned(provider.account_id.as_str()),
        tunnel_api_token_env: owned(provider.tunnel_api_token_env.as_str()),
        dns_api_token_env: owned(provider.dns_api_token_env.as_str()),
        tunnel_name: owned(tunnel_name),
        connector_host: owned(tunnel.connector_host.as_str()),
        origin: owned(tunnel.origin.as_str()),
        origin_tls_verify: tunnel.origin_tls_verify,
        hostnames,
    })
}

/// Every hostname a resolved Cloudflare plan routes is strictly under the
/// provider's zone, and none is listed twice.
pub proof fn law_tunnel_hostnames_under_zone(b: &ConfigBundle, requested: Option<Seq<char>>, p: ResolvedCloudflarePlan)
    requires
        cloudflare_ok(b, requested),
        cloudflare_plan_of(b, requested, p),
    ensures
        forall|i: int| 0 <= i < p.hostnames@.len() ==> is_subdomain((#[trigger] p.hostnames@[i])@, p.zone@),
        forall|i: int, j: int| 0 <= i < p.hostnames@.len() && 0 <= j < p.hostnames@.len() && i != j ==> p.hostnames@[i]@ != p.hostnames@[j]@,
{
    let ing = b.location.external_ingress->0;
    let t = chosen_tunnel(ing, requested)->0;
    let tn = lookup(b.cloudflare.tunnels@, t)->0;
    assert forall|i: int| 0 <= i < p.hostnames@.len() implies is_subdomain((#[trigger] p.hostnames@[i])@, p.zone@) by {
        assert(texts(p.hostnames@)[i] == p.hostnames@[i]@);
        assert(texts(p.hostnames@).to_set().contains(p.hostnames@[i]@));
        assert(texts(tn.hostnames@).to_set().contains(p.hostnames@[i]@));
        let k = choose|k: int| 0 <= k < texts(tn.hostnames@).len() && texts(tn.hostnames@)[k] == p.hostnames@[i]@;
        assert(is_subdomain(tn.hostnames@[k]@, lookup(b.cloudflare.providers@, ing.provider@)->0.zone@));
    }
    assert forall|i: int, j: int| 0 <= i < p.hostnames@.len() && 0 <= j < p.hostnames@.len() && i != j implies p.hostnames@[i]@ != p.hostnames@[j]@ by {
        if i < j {
            assert(text_lt(p.hostnames@[i]@, p.hostnames@[j]@));
            crate::text::lemma_text_lt_irreflexive(p.hostnames@[i]@);
        } else {
            assert(text_lt(p.hostnames@[j]@, p.hostnames@[i]@));
            crate::text::lemma_text_lt_irreflexive(p.hostnames@[j]@);
        }
    }
}

} // verus!
