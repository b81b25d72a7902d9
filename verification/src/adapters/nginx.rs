//! What the Nginx adapter renders: the proxy entries of one host.

use vstd::prelude::*;

use crate::adapter::AdapterError;
use crate::plan::proxy::{ProxyView, ResolvedProxy, ResolvedProxyPlan};
use crate::text::{owned, str_eq};

verus! {

/// The proxy entries targeting `host`, in order.
pub open spec fn proxies_on(s: Seq<ProxyView>, host: Seq<char>) -> Seq<ProxyView>
    decreases s.len(),
{
    if s.len() == 0 {
        Seq::empty()
    } else if s.last().target_host == host {
        proxies_on(s.drop_last(), host).push(s.last())
    } else {
        proxies_on(s.drop_last(), host)
    }
}

pub open spec fn views_of(s: Seq<ResolvedProxy>) -> Seq<ProxyView> {
    s.map_values(|p: ResolvedProxy| p@)
}

/// All entries target the same host.
pub open spec fn one_target_host(s: Seq<ProxyView>) -> bool {
    forall|i: int| 0 <= i < s.len() ==> (#[trigger] s[i]).target_host == s[0].target_host
}

/// Selects the proxy entries the Nginx adapter renders: those of
/// `target_host` when given; otherwise all entries, which must all target
/// one host. There must be at least one.
pub fn plan_for_context(plan: ResolvedProxyPlan, target_host: Option<&str>) -> (r: Result<(ResolvedProxyPlan, String), AdapterError>)
    ensures
        target_host matches Some(h) ==> (r is Ok <==> proxies_on(plan@, h@).len() > 0),
        target_host matches Some(h) ==> (r matches Ok(x) ==> x.0@ == proxies_on(plan@, h@) && x.1@ == h@),
        target_host is None ==> (r is Ok <==> plan@.len() > 0 && one_target_host(plan@)),
        target_host is None ==> (r matches Ok(x) ==> x.0@ == plan@ && x.1@ == plan@[0].target_host),
        target_host matches Some(h) ==> (r matches Err(e) ==> (e matches AdapterError::NoProxiesForHost { host } && host@ == h@)),
        target_host is None ==> (r matches Err(e) ==> if plan@.len() == 0 {
            e is NoProxyEntries
        } else {
            e is MultipleProxyHosts
        }),
{
    let ghost all = plan@;
    match target_host {
        Some(h) => {
            let mut rest = plan.proxies;
            let mut kept: Vec<ResolvedProxy> = Vec::new();
            let ghost mut done: int = 0;
            assert(all.take(0) =~= Seq::<ProxyView>::empty());
            assert(views_of(rest@) =~= all.skip(0));
            while rest.len() > 0
                invariant
                    0 <= done <= all.len(),
                    views_of(rest@) == all.skip(done),
                    views_of(kept@) == proxies_on(all.take(done), h@),
                decreases rest@.len(),
            {
                let ghost before = rest@;
                let p = rest.remove(0);
                proof {
                    assert(views_of(before).len() == before.len());
                    assert(done < all.len());
                    assert(views_of(before)[0] == p@);
                    assert(all.skip(done)[0] == all[done]);
                    assert(all.take(done + 1).drop_last() =~= all.take(done));
                }
                let ghost (k0, pv) = (kept@, p@);
                if str_eq(p.target_host.as_str(), h) {
                    kept.push(p);
                    assert(views_of(kept@) =~= views_of(k0).push(pv));
                }
                proof {
                    assert forall|j: int| 0 <= j < rest@.len() implies #[trigger] views_of(rest@)[j] == all.skip(done + 1)[j] by {
                        assert(rest@[j] == before[j + 1]);
                        assert(views_of(before)[j + 1] == all.skip(done)[j + 1]);
                    }
                    assert(views_of(rest@) =~= all.skip(done + 1));
                    done = done + 1;
                }
            }
            assert(all.take(done) =~= all);
            if kept.len() == 0 {
                return Err(AdapterError::NoProxiesForHost { host: owned(h) });
            }
            let out = ResolvedProxyPlan { proxies: kept };
            Ok((out, owned(h)))
        },
        None => {
            if plan.proxies.len() == 0 {
                return Err(AdapterError::NoProxyEntries);
            }
            let first = owned(plan.proxies[0].target_host.as_str());
            assert(plan@[0] == plan.proxies@[0]@);
            let mut i: usize = 1;
            while i < plan.proxies.len()
                invariant
                    1 <= i <= plan.proxies@.len(),
                    target_host is None,
                    all == plan@,
                    first@ == all[0].target_host,
                    forall|j: int| 0 <= j < i ==> (#[trigger] all[j]).target_host == all[0].target_host,
                decreases plan.proxies@.len() - i,
            {
                assert(plan@[i as int] == plan.proxies@[i as int]@);
                if !str_eq(plan.proxies[i].target_host.as_str(), first.as_str()) {
                    return Err(AdapterError::MultipleProxyHosts);
                }
                i = i + 1;
            }
            Ok((plan, first))
        },
    }
}

/// Every entry with TLS names a certificate: Nginx needs the files.
pub fn validate_plan(plan: &ResolvedProxyPlan) -> (r: Result<(), AdapterError>)
    ensures
        r is Ok <==> forall|i: int| 0 <= i < plan@.len() ==> ((#[trigger] plan@[i]).tls matches Some(t) ==> t.certificate is Some),
        r matches Err(e) ==> e is TlsWithoutCertificate,
{
    let mut i: usize = 0;
    while i < plan.proxies.len()
        invariant
            i <= plan@.len(),
            forall|j: int| 0 <= j < i ==> ((#[trigger] plan@[j]).tls matches Some(t) ==> t.certificate is Some),
        decreases plan@.len() - i,
    {
        let missing = match &plan.proxies[i].tls {
            Some(t) => t.certificate.is_none(),
            None => false,
        };
        if missing {
            assert(plan@[i as int] == plan.proxies@[i as int]@);
            return Err(AdapterError::TlsWithoutCertificate { proxy: owned(plan.proxies[i].id.as_str()) });
        }
        assert(plan@[i as int] == plan.proxies@[i as int]@);
        i = i + 1;
    }
    Ok(())
}

/// The prefix argument handed to `nginx -p`: the root followed by a
/// separator.
pub fn prefix_argument(root: &str) -> (r: String)
    ensures
        r@ == root@.push('/'),
{
    let mut s = owned(root);
    crate::text::push_char(&mut s, '/');
    s
}

} // verus!
