//! Reverse-proxy plans.

use vstd::prelude::*;

use super::PlanError;
use crate::model::id::{
    normalize_domain, valid_domain, valid_identifier, CertificateId, DomainName, HostId, IdKind, ProxyId, ServiceId,
};
use crate::model::{ConfigBundle, Service, ServiceKind, UpstreamScheme, WebService};
use crate::table::{find, flat_map, lemma_flat_map_prefix, lemma_flat_map_step, lookup};
use crate::text::{chars_of, first_char_is, starts_with_char, str_eq};
use crate::validate::addresses::service_ipv4;

verus! {

#[derive(Clone, Copy, Debug, PartialEq, Eq, Structural)]
pub enum ListenerProtocol {
    Http,
    Https,
}

impl ListenerProtocol {
    pub fn as_str(self) -> (r: &'static str)
        ensures
            self == ListenerProtocol::Http ==> r@ == "http"@,
            self == ListenerProtocol::Https ==> r@ == "https"@,
    {
        match self {
            ListenerProtocol::Http => "http",
            ListenerProtocol::Https => "https",
        }
    }
}

#[derive(Clone, Copy, Debug, PartialEq, Eq, Structural)]
#[non_exhaustive]
pub struct ResolvedListener {
    pub protocol: ListenerProtocol,
    pub port: u16,
}

#[derive(Clone, Copy, Debug, PartialEq, Eq, Structural)]
#[non_exhaustive]
pub struct ResolvedUpstream {
    pub scheme: UpstreamScheme,
    pub address: u32,
    pub port: u16,
}

#[non_exhaustive]
pub struct ResolvedCertificate {
    pub id: CertificateId,
    pub domains: Vec<DomainName>,
    pub certificate_path: String,
    pub private_key_path: String,
}

#[non_exhaustive]
pub struct ResolvedTls {
    pub certificate: Option<ResolvedCertificate>,
    pub force_https: bool,
}

#[non_exhaustive]
pub struct ResolvedProxy {
    pub id: ProxyId,
    pub service: ServiceId,
    pub proxy_service: ServiceId,
    pub target_host: HostId,
    pub domains: Vec<DomainName>,
    pub listeners: Vec<ResolvedListener>,
    pub upstream: ResolvedUpstream,
    pub tls: Option<ResolvedTls>,
    pub websocket: bool,
}

#[non_exhaustive]
pub struct ResolvedProxyPlan {
    pub proxies: Vec<ResolvedProxy>,
}

/// A certificate reference as plain values.
pub struct CertificateView {
    pub id: Seq<char>,
    pub domains: Seq<Seq<char>>,
    pub certificate_path: Seq<char>,
    pub private_key_path: Seq<char>,
}

pub struct TlsView {
    pub certificate: Option<CertificateView>,
    pub force_https: bool,
}

/// A resolved proxy as plain values.
pub struct ProxyView {
    pub id: Seq<char>,
    pub service: Seq<char>,
    pub proxy_service: Seq<char>,
    pub target_host: Seq<char>,
    pub domains: Seq<Seq<char>>,
    pub listeners: Seq<ResolvedListener>,
    pub upstream: ResolvedUpstream,
    pub tls: Option<TlsView>,
    pub websocket: bool,
}

impl View for ResolvedCertificate {
    type V = CertificateView;

    open spec fn view(&self) -> CertificateView {
        CertificateView {
            id: self.id@,
            domains: self.domains@.map_values(|d: DomainName| d@),
            certificate_path: self.certificate_path@,
            private_key_path: self.private_key_path@,
        }
    }
}

impl View for ResolvedTls {
    type V = TlsView;

    open spec fn view(&self) -> TlsView {
        TlsView {
            certificate: match self.certificate {
                Some(c) => Some(c@),
                None => None,
            },
            force_https: self.force_https,
        }
    }
}

impl View for ResolvedProxy {
    type V = ProxyView;

    open spec fn view(&self) -> ProxyView {
        ProxyView {
            id: self.id@,
            service: self.service@,
            proxy_service: self.proxy_service@,
            target_host: self.target_host@,
            domains: self.domains@.map_values(|d: DomainName| d@),
            listeners: self.listeners@,
            upstream: self.upstream,
            tls: match self.tls {
                Some(t) => Some(t@),
                None => None,
            },
            websocket: self.websocket,
        }
    }
}

impl View for ResolvedProxyPlan {
    type V = Seq<ProxyView>;

    open spec fn view(&self) -> Seq<ProxyView> {
        self.proxies@.map_values(|p: ResolvedProxy| p@)
    }
}

/// A wildcard domain: `*.` followed by the rest.
pub open spec fn is_wildcard(d: Seq<char>) -> bool {
    d.len() >= 2 && d[0] == '*' && d[1] == '.'
}

/// Whether a certificate domain covers a requested domain: the same name, or
/// a wildcard `*.suffix` and the request is one further label before `.suffix`.
pub open spec fn domain_covers(covered: Seq<char>, requested: Seq<char>) -> bool {
    ||| covered == requested
    ||| {
        let suffix = covered.skip(2);
        let cut = requested.len() - suffix.len();
        &&& is_wildcard(covered)
        &&& cut >= 1
        &&& requested.skip(cut) == suffix
        &&& requested[cut - 1] == '.'
        &&& forall|k: int| 0 <= k < cut - 1 ==> requested[k] != '.'
    }
}

/// Whether `covered` (possibly a wildcard) covers `requested`.
pub fn domain_matches(covered: &DomainName, requested: &DomainName) -> (r: bool)
    ensures
        r == domain_covers(covered@, requested@),
{
    let c = chars_of(covered.as_str());
    let q = chars_of(requested.as_str());
    if str_eq(covered.as_str(), requested.as_str()) {
        return true;
    }
    if !(c.len() >= 2 && c[0] == '*' && c[1] == '.') {
        return false;
    }
    let suffix_len = c.len() - 2;
    if q.len() < suffix_len + 1 {
        return false;
    }
    let cut = q.len() - suffix_len;
    let mut k: usize = 0;
    while k < suffix_len
        invariant
            c@ == covered@,
            q@ == requested@,
            covered@ != requested@,
            c@.len() >= 2,
            q@.len() >= suffix_len + 1,
            suffix_len + 2 == c@.len(),
            cut + suffix_len == q@.len(),
            q@.len() <= usize::MAX,
            c@.len() <= usize::MAX,
            k <= suffix_len,
            forall|j: int| 0 <= j < k ==> #[trigger] requested@.skip(cut as int)[j] == covered@.skip(2)[j],
        decreases suffix_len - k,
    {
        assert(requested@.skip(cut as int)[k as int] == q@[cut + k]);
        assert(covered@.skip(2)[k as int] == c@[2 + k]);
        if q[cut + k] != c[2 + k] {
            return false;
        }
        k = k + 1;
    }
    proof {
        assert(requested@.skip(cut as int) =~= covered@.skip(2));
    }
    if q[cut - 1] != '.' {
        return false;
    }
    let mut m: usize = 0;
    while m < cut - 1
        invariant
            q@ == requested@,
            covered@ != requested@,
            covered@.len() >= 2,
            cut == requested@.len() - (covered@.len() - 2),
            cut <= q@.len(),
            cut >= 1,
            m <= cut - 1,
            forall|j: int| 0 <= j < m ==> q@[j] != '.',
        decreases cut - 1 - m,
    {
        if q[m] == '.' {
            return false;
        }
        m = m + 1;
    }
    true
}

/// The service's web settings (meaningful for proxied services).
pub open spec fn web_of(s: Service) -> WebService {
    s.web->0
}

/// A web service that is enabled gets a proxy entry.
pub open spec fn proxied(s: Service) -> bool {
    s.web is Some && s.enabled
}

/// TLS settings: with TLS, a named certificate must exist, hold valid
/// domains one of which covers the proxy domain, have an identifier name and
/// absolute paths; without TLS, neither a certificate nor forced HTTPS.
pub open spec fn tls_ok(b: &ConfigBundle, w: WebService) -> bool {
    if w.tls {
        match w.certificate {
            None => true,
            Some(c) => match lookup(b.services.certificates@, c@) {
                None => false,
                Some(r) => {
                    &&& forall|k: int| 0 <= k < r.domains@.len() ==> valid_domain((#[trigger] r.domains@[k])@)
                    &&& exists|k: int|
                        0 <= k < r.domains@.len() && domain_covers(
                            normalize_domain((#[trigger] r.domains@[k])@),
                            normalize_domain(w.domain@),
                        )
                    &&& valid_identifier(c@)
                    &&& starts_with_char(r.certificate_path@, '/')
                    &&& starts_with_char(r.private_key_path@, '/')
                },
            },
        }
    } else {
        w.certificate is None && !w.force_https
    }
}

/// The rules a proxied service must meet.
pub open spec fn proxy_entry_ok(b: &ConfigBundle, name: Seq<char>, s: Service) -> bool {
    let w = web_of(s);
    &&& w.access@ == "reverse-proxy"@
    &&& match lookup(b.services.services@, w.proxy@) {
        None => false,
        Some(p) => p.kind == ServiceKind::ReverseProxy && p.enabled && valid_identifier(p.host@),
    }
    &&& service_ipv4(s) is Some
    &&& w.container_port != 0
    &&& valid_domain(w.domain@)
    &&& !is_wildcard(normalize_domain(w.domain@))
    &&& tls_ok(b, w)
    &&& valid_identifier(name)
    &&& valid_identifier(w.proxy@)
}

/// The proxy entry a proxied service resolves to.
pub open spec fn proxy_view(b: &ConfigBundle, name: Seq<char>, s: Service) -> ProxyView {
    let w = web_of(s);
    let p = lookup(b.services.services@, w.proxy@)->0;
    ProxyView {
        id: name,
        service: name,
        proxy_service: w.proxy@,
        target_host: p.host@,
        domains: seq![normalize_domain(w.domain@)],
        listeners: seq![
            ResolvedListener {
                protocol: if w.tls {
                    ListenerProtocol::Https
                } else {
                    ListenerProtocol::Http
                },
                port: if w.tls {
                    443
                } else {
                    80
                },
            },
        ],
        upstream: ResolvedUpstream { scheme: w.scheme, address: service_ipv4(s)->0, port: w.container_port },
        tls: if w.tls {
            Some(
                TlsView {
                    certificate: match w.certificate {
                        Some(c) => {
                            let r = lookup(b.services.certificates@, c@)->0;
                            Some(
                                CertificateView {
                                    id: c@,
                                    domains: r.domains@.map_values(|d: String| normalize_domain(d@)),
                                    certificate_path: r.certificate_path@,
                                    private_key_path: r.private_key_path@,
                                },
                            )
                        },
                        None => None,
                    },
                    force_https: w.force_https,
                },
            )
        } else {
            None
        },
        websocket: w.websocket,
    }
}

/// The proxy entries of a table of services, in table order.
pub open spec fn proxy_views(b: &ConfigBundle, s: Seq<(String, Service)>) -> Seq<ProxyView> {
    flat_map(
        s,
        |e: (String, Service)|
            if proxied(e.1) {
                seq![proxy_view(b, e.0@, e.1)]
            } else {
                Seq::<ProxyView>::empty()
            },
    )
}

/// When a proxy plan exists: every proxied service meets the proxy rules and
/// no domain is proxied twice.
pub open spec fn proxy_plan_ok(b: &ConfigBundle) -> bool {
    &&& forall|i: int|
        0 <= i < b.services.services@.len() ==> proxied((#[trigger] b.services.services@[i]).1)
            ==> proxy_entry_ok(b, b.services.services@[i].0@, b.services.services@[i].1)
    &&& flat_map(proxy_views(b, b.services.services@), |v: ProxyView| v.domains).no_duplicates()
}

/// Why the TLS settings `w` of service `service` are refused, checked in
/// this order: settings without TLS; an unknown certificate; its first
/// invalid domain; no domain covering the proxy domain; its name; its
/// certificate path; its key path.
pub open spec fn tls_refusal(b: &ConfigBundle, service: Seq<char>, w: WebService, err: PlanError) -> bool {
    if !w.tls {
        err matches PlanError::TlsSettingsWithoutTls { service: x } && x@ == service
    } else {
        let c = w.certificate->0@;
        match lookup(b.services.certificates@, c) {
            None => err matches PlanError::UnknownCertificate { service: x, certificate } && x@ == service && certificate@ == c,
            Some(r) => if exists|k: int| 0 <= k < r.domains@.len() && !valid_domain((#[trigger] r.domains@[k])@) {
                exists|k: int| 0 <= k < r.domains@.len() && !valid_domain((#[trigger] r.domains@[k])@)
                    && (forall|j: int| 0 <= j < k ==> valid_domain((#[trigger] r.domains@[j])@))
                    && (err matches PlanError::InvalidIdentifier { error } && error.kind == IdKind::Domain && error.value@ == r.domains@[k]@)
            } else if !(exists|k: int|
                0 <= k < r.domains@.len() && domain_covers(
                    normalize_domain((#[trigger] r.domains@[k])@),
                    normalize_domain(w.domain@),
                )) {
                err matches PlanError::CertificateDoesNotCover { certificate, domain } && certificate@ == c && domain@ == normalize_domain(w.domain@)
            } else if !valid_identifier(c) {
                err matches PlanError::InvalidIdentifier { error } && error.kind == IdKind::Certificate && error.value@ == c
            } else if !starts_with_char(r.certificate_path@, '/') {
                err matches PlanError::RelativeCertificatePath { certificate, path } && certificate@ == c && path@ == r.certificate_path@
            } else {
                err matches PlanError::RelativeCertificatePath { certificate, path } && certificate@ == c && path@ == r.private_key_path@
            },
        }
    }
}

/// Why proxied service `name` is refused, checked in the order the rules
/// are tried: its access mode, its proxy service, its address, its upstream
/// port, its domain, its TLS settings, and the identifiers it carries.
pub open spec fn entry_refusal(b: &ConfigBundle, name: Seq<char>, s: Service, err: PlanError) -> bool {
    let w = web_of(s);
    let p = lookup(b.services.services@, w.proxy@);
    if w.access@ != "reverse-proxy"@ {
        err matches PlanError::UnsupportedWebAccess { service, access } && service@ == name && access@ == w.access@
    } else if p is None {
        err matches PlanError::UnknownProxyService { service, proxy } && service@ == name && proxy@ == w.proxy@
    } else if p->0.kind != ServiceKind::ReverseProxy {
        err matches PlanError::NotAReverseProxy { service, proxy } && service@ == name && proxy@ == w.proxy@
    } else if !p->0.enabled {
        err matches PlanError::DisabledProxy { service, proxy } && service@ == name && proxy@ == w.proxy@
    } else if service_ipv4(s) is None {
        err matches PlanError::ProxiedServiceNoIpv4 { service } && service@ == name
    } else if w.container_port == 0 {
        err matches PlanError::ZeroUpstreamPort { service } && service@ == name
    } else if !valid_domain(w.domain@) {
        err matches PlanError::InvalidProxyDomain { service, error } && service@ == name && error.kind == IdKind::Domain && error.value@ == w.domain@
    } else if is_wildcard(normalize_domain(w.domain@)) {
        err matches PlanError::WildcardProxyDomain { service } && service@ == name
    } else if !tls_ok(b, w) {
        tls_refusal(b, name, w, err)
    } else if !valid_identifier(name) {
        err matches PlanError::InvalidIdentifier { error } && error.kind == IdKind::Proxy && error.value@ == name
    } else if !valid_identifier(w.proxy@) {
        err matches PlanError::InvalidIdentifier { error } && error.kind == IdKind::Service && error.value@ == w.proxy@
    } else {
        err matches PlanError::InvalidIdentifier { error } && error.kind == IdKind::Host && error.value@ == p->0.host@
    }
}

/// Service `i` is the first proxied service that breaks the proxy rules.
pub open spec fn first_refused_entry(b: &ConfigBundle, i: int) -> bool {
    let all = b.services.services@;
    &&& 0 <= i < all.len()
    &&& proxied(all[i].1)
    &&& !proxy_entry_ok(b, all[i].0@, all[i].1)
    &&& forall|j: int| 0 <= j < i ==> proxied((#[trigger] all[j]).1) ==> proxy_entry_ok(b, all[j].0@, all[j].1)
}

/// Entry `k` of `ds` is the first that repeats an earlier one.
pub open spec fn first_repeat(ds: Seq<Seq<char>>, k: int) -> bool {
    &&& 0 <= k < ds.len()
    &&& ds.take(k).no_duplicates()
    &&& ds.take(k).contains(ds[k])
}

/// Why the proxy plan is refused: the first proxied service that breaks the
/// rules, or else the first proxy domain that repeats an earlier one.
pub open spec fn proxy_refusal(b: &ConfigBundle, err: PlanError) -> bool {
    let all = b.services.services@;
    if exists|i: int| #[trigger] first_refused_entry(b, i) {
        exists|i: int| #[trigger] first_refused_entry(b, i) && entry_refusal(b, all[i].0@, all[i].1, err)
    } else {
        let ds = flat_map(proxy_views(b, all), |v: ProxyView| v.domains);
        err matches PlanError::DuplicateProxyDomain { domain } && exists|k: int| #[trigger] first_repeat(ds, k) && domain@ == ds[k]
    }
}

/// A certificate file path, which must be absolute.
pub fn absolute_path(value: &str, certificate: &str) -> (r: Result<String, PlanError>)
    ensures
        r is Ok <==> starts_with_char(value@, '/'),
        r matches Ok(p) ==> p@ == value@,
        r matches Err(e) ==> e matches PlanError::RelativeCertificatePath { certificate: c, path: p } && c@ == certificate@ && p@ == value@,
{
    if !first_char_is(value, '/') {
        return Err(PlanError::RelativeCertificatePath { certificate: certificate.to_owned(), path: value.to_owned() });
    }
    Ok(value.to_owned())
}

fn resolve_tls(b: &ConfigBundle, service_name: &String, web: &WebService, domain: &DomainName) -> (r: Result<Option<ResolvedTls>, PlanError>)
    requires
        b.wf(),
        domain@ == normalize_domain(web.domain@),
    ensures
        r is Ok <==> tls_ok(b, *web),
        r matches Ok(t) ==> match proxy_tls(b, *web) {
            Some(v) => t matches Some(x) && x@ == v,
            None => t is None,
        },
        r matches Err(err) ==> tls_refusal(b, service_name@, *web, err),
{
    if !web.tls {
        if web.certificate.is_some() || web.force_https {
            return Err(PlanError::TlsSettingsWithoutTls { service: service_name.clone() });
        }
        return Ok(None);
    }
    let certificate = match &web.certificate {
        None => None,
        Some(certificate_name) => {
            let ci = match find(&b.services.certificates, certificate_name.as_str()) {
                None => {
                    return Err(
                        PlanError::UnknownCertificate {
                            service: service_name.clone(),
                            certificate: certificate_name.clone(),
                        },
                    );
                },
                Some(ci) => ci,
            };
            let reference = &b.services.certificates[ci].1;
            let mut domains: Vec<DomainName> = Vec::new();
            let mut k: usize = 0;
            while k < reference.domains.len()
                invariant
                    web.tls,
                    web.certificate == Some(*certificate_name),
                    lookup(b.services.certificates@, certificate_name@) == Some(*reference),
                    k <= reference.domains@.len(),
                    forall|j: int| 0 <= j < k ==> valid_domain((#[trigger] reference.domains@[j])@),
                    domains@.len() == k,
                    forall|j: int| 0 <= j < k ==> (#[trigger] domains@[j])@ == normalize_domain(reference.domains@[j]@),
                decreases reference.domains@.len() - k,
            {
                match DomainName::new(reference.domains[k].as_str()) {
                    Ok(d) => {
                        domains.push(d);
                    },
                    Err(e) => {
                        proof {
                            assert(!valid_domain(reference.domains@[k as int]@));
                        }
                        return Err(PlanError::InvalidIdentifier { error: e });
                    },
                }
                k = k + 1;
            }
            let mut covered = false;
            let mut m: usize = 0;
            while m < domains.len()
                invariant
                    m <= domains@.len(),
                    domains@.len() == reference.domains@.len(),
                    forall|j: int| 0 <= j < domains@.len() ==> (#[trigger] domains@[j])@ == normalize_domain(reference.domains@[j]@),
                    domain@ == normalize_domain(web.domain@),
                    covered ==> exists|j: int|
                        0 <= j < reference.domains@.len() && domain_covers(
                            normalize_domain((#[trigger] reference.domains@[j])@),
                            normalize_domain(web.domain@),
                        ),
                    !covered ==> forall|j: int| 0 <= j < m ==> !domain_covers(
                        normalize_domain((#[trigger] reference.domains@[j])@),
                        normalize_domain(web.domain@),
                    ),
                decreases domains@.len() - m,
            {
                assert(domains@[m as int]@ == normalize_domain(reference.domains@[m as int]@));
                if domain_matches(&domains[m], domain) {
                    covered = true;
                }
                m = m + 1;
            }
            if !covered {
                return Err(
                    PlanError::CertificateDoesNotCover {
                        certificate: certificate_name.clone(),
                        domain: domain.as_str().to_owned(),
                    },
                );
            }
            let id = match CertificateId::new(certificate_name.as_str()) {
                Ok(id) => id,
                Err(e) => {
                    return Err(PlanError::InvalidIdentifier { error: e });
                },
            };
            let certificate_path = match absolute_path(reference.certificate_path.as_str(), certificate_name.as_str()) {
                Ok(p) => p,
                Err(e) => {
                    return Err(e);
                },
            };
            let private_key_path = match absolute_path(reference.private_key_path.as_str(), certificate_name.as_str()) {
                Ok(p) => p,
                Err(e) => {
                    return Err(e);
                },
            };
            let rc = ResolvedCertificate {
                id,
                domains,
                certificate_path,
                private_key_path,
            };
            proof {
                assert(rc@.domains =~= reference.domains@.map_values(|d: String| normalize_domain(d@)));
            }
            Some(rc)
        },
    };
    let tls = ResolvedTls { certificate, force_https: web.force_https };
    Ok(Some(tls))
}

/// The TLS part of a proxy entry.
pub open spec fn proxy_tls(b: &ConfigBundle, w: WebService) -> Option<TlsView> {
    if w.tls {
        Some(
            TlsView {
                certificate: match w.certificate {
                    Some(c) => {
                        let r = lookup(b.services.certificates@, c@)->0;
                        Some(
                            CertificateView {
                                id: c@,
                                domains: r.domains@.map_values(|d: String| normalize_domain(d@)),
                                certificate_path: r.certificate_path@,
                                private_key_path: r.private_key_path@,
                            },
                        )
                    },
                    None => None,
                },
                force_https: w.force_https,
            },
        )
    } else {
        None
    }
}


/// Resolves the reverse-proxy entries of all enabled web services, in
/// service order, and rejects a domain proxied twice.
pub fn resolve_proxy_plan(b: &ConfigBundle) -> (r: Result<ResolvedProxyPlan, PlanError>)
    requires
        b.wf(),
    ensures
        r is Ok <==> proxy_plan_ok(b),
        r matches Ok(p) ==> p@ == proxy_views(b, b.services.services@),
        r matches Err(err) ==> proxy_refusal(b, err),
{
    let services = &b.services.services;
    let ghost all = services@;
    let ghost g = |e: (String, Service)|
        if proxied(e.1) {
            seq![proxy_view(b, e.0@, e.1)]
        } else {
            Seq::<ProxyView>::empty()
        };
    let mut proxies: Vec<ResolvedProxy> = Vec::new();
    let mut i: usize = 0;
    proof {
        assert(all.take(0) =~= Seq::<(String, Service)>::empty());
        assert(proxies@.map_values(|p: ResolvedProxy| p@) =~= proxy_views(b, all.take(0)));
    }
    while i < services.len()
        invariant
            b.wf(),
            services == &b.services.services,
            all == services@,
            i <= all.len(),
            g == (|e: (String, Service)|
                if proxied(e.1) {
                    seq![proxy_view(b, e.0@, e.1)]
                } else {
                    Seq::<ProxyView>::empty()
                }),
            forall|j: int| 0 <= j < i ==> proxied((#[trigger] all[j]).1) ==> proxy_entry_ok(b, all[j].0@, all[j].1),
            proxies@.map_values(|p: ResolvedProxy| p@) == proxy_views(b, all.take(i as int)),
            forall|j: int| 0 <= j < proxies@.len() ==> (#[trigger] proxies@[j]).domains@.len() == 1,
        decreases all.len() - i,
    {
        let service_name = &services[i].0;
        let service = &services[i].1;
        proof {
            lemma_flat_map_step(all, g, i as int);
        }
        let web = match &service.web {
            None => {
                i = i + 1;
                proof {
                    assert(proxies@.map_values(|p: ResolvedProxy| p@) =~= proxy_views(b, all.take(i as int)));
                }
                continue;
            },
            Some(w) => w,
        };
        if !service.enabled {
            i = i + 1;
            proof {
                assert(proxies@.map_values(|p: ResolvedProxy| p@) =~= proxy_views(b, all.take(i as int)));
            }
            continue;
        }
        if !str_eq(web.access.as_str(), "reverse-proxy") {
            proof {
                assert(first_refused_entry(b, i as int));
            }
            return Err(PlanError::UnsupportedWebAccess { service: service_name.clone(), access: web.access.clone() });
        }
        let pi = match find(services, web.proxy.as_str()) {
            None => {
                proof {
                    assert(first_refused_entry(b, i as int));
                }
                return Err(PlanError::UnknownProxyService { service: service_name.clone(), proxy: web.proxy.clone() });
            },
            Some(pi) => pi,
        };
        let proxy_service = &services[pi].1;
        if proxy_service.kind != ServiceKind::ReverseProxy {
            proof {
                assert(first_refused_entry(b, i as int));
            }
            return Err(PlanError::NotAReverseProxy { service: service_name.clone(), proxy: web.proxy.clone() });
        }
        if !proxy_service.enabled {
            proof {
                assert(first_refused_entry(b, i as int));
            }
            return Err(PlanError::DisabledProxy { service: service_name.clone(), proxy: web.proxy.clone() });
        }
        let address = match &service.address {
            Some(a) => a.ipv4,
            None => None,
        };
        let address = match address {
            None => {
                proof {
                    assert(first_refused_entry(b, i as int));
                }
                return Err(PlanError::ProxiedServiceNoIpv4 { service: service_name.clone() });
            },
            Some(a) => a,
        };
        if web.container_port == 0 {
            proof {
                assert(first_refused_entry(b, i as int));
            }
            return Err(PlanError::ZeroUpstreamPort { service: service_name.clone() });
        }
        let domain = match DomainName::new(web.domain.as_str()) {
            Ok(d) => d,
            Err(e) => {
                proof {
                    assert(first_refused_entry(b, i as int));
                }
                return Err(PlanError::InvalidProxyDomain { service: service_name.clone(), error: e });
            },
        };
        let dchars = chars_of(domain.as_str());
        if dchars.len() >= 2 && dchars[0] == '*' && dchars[1] == '.' {
            proof {
                assert(first_refused_entry(b, i as int));
            }
            return Err(PlanError::WildcardProxyDomain { service: service_name.clone() });
        }
        let tls = match resolve_tls(b, service_name, web, &domain) {
            Ok(t) => t,
            Err(e) => {
                proof {
                    assert(first_refused_entry(b, i as int));
                }
                return Err(e);
            },
        };
        let id = match ProxyId::new(service_name.as_str()) {
            Ok(x) => x,
            Err(e) => {
                proof {
                    assert(first_refused_entry(b, i as int));
                }
                return Err(PlanError::InvalidIdentifier { error: e });
            },
        };
        let sid = match ServiceId::new(service_name.as_str()) {
            Ok(x) => x,
            Err(e) => {
                proof {
                    assert(first_refused_entry(b, i as int));
                }
                return Err(PlanError::InvalidIdentifier { error: e });
            },
        };
        let pid = match ServiceId::new(web.proxy.as_str()) {
            Ok(x) => x,
            Err(e) => {
                proof {
                    assert(first_refused_entry(b, i as int));
                }
                return Err(PlanError::InvalidIdentifier { error: e });
            },
        };
        let host = match HostId::new(proxy_service.host.as_str()) {
            Ok(x) => x,
            Err(e) => {
                proof {
                    assert(first_refused_entry(b, i as int));
                }
                return Err(PlanError::InvalidIdentifier { error: e });
            },
        };
        let mut domains: Vec<DomainName> = Vec::new();
        domains.push(domain);
        let mut listeners: Vec<ResolvedListener> = Vec::new();
        listeners.push(
            ResolvedListener {
                protocol: if web.tls {
                    ListenerProtocol::Https
                } else {
                    ListenerProtocol::Http
                },
                port: if web.tls {
                    443
                } else {
                    80
                },
            },
        );
        let entry = ResolvedProxy {
            id,
            service: sid,
            proxy_service: pid,
            target_host: host,
            domains,
            listeners,
            upstream: ResolvedUpstream { scheme: web.scheme, address, port: web.container_port },
            tls,
            websocket: web.websocket,
        };
        proof {
            assert(entry@.domains =~= seq![normalize_domain(web.domain@)]);
            assert(entry@ == proxy_view(b, service_name@, *service));
            assert(proxy_entry_ok(b, service_name@, *service));
        }
        proxies.push(entry);
        i = i + 1;
        proof {
            assert(proxies@.map_values(|p: ResolvedProxy| p@) =~= proxy_views(b, all.take(i as int)));
        }
    }
    proof {
        assert(all.take(all.len() as int) =~= all);
    }
    let ghost views = proxies@.map_values(|p: ResolvedProxy| p@);
    let ghost gd = |v: ProxyView| v.domains;
    let mut seen: Vec<String> = Vec::new();
    let mut k: usize = 0;
    proof {
        assert(views.take(0) =~= Seq::<ProxyView>::empty());
        assert(crate::table::texts(seen@) =~= flat_map(views.take(0), gd));
    }
    while k < proxies.len()
        invariant
            views == proxies@.map_values(|p: ResolvedProxy| p@),
            views == proxy_views(b, b.services.services@),
            forall|j: int| 0 <= j < b.services.services@.len() ==> proxied((#[trigger] b.services.services@[j]).1)
                ==> proxy_entry_ok(b, b.services.services@[j].0@, b.services.services@[j].1),
            k <= proxies@.len(),
            gd == |v: ProxyView| v.domains,
            forall|j: int| 0 <= j < proxies@.len() ==> (#[trigger] proxies@[j]).domains@.len() == 1,
            crate::table::texts(seen@) == flat_map(views.take(k as int), gd),
            flat_map(views.take(k as int), gd).no_duplicates(),
        decreases proxies@.len() - k,
    {
        proof {
            lemma_flat_map_step(views, gd, k as int);
            lemma_flat_map_prefix(views, gd, (k + 1) as int);
            assert(proxies@[k as int].domains@.len() == 1);
            assert(views[k as int].domains =~= seq![proxies@[k as int].domains@[0]@]);
        }
        let d = proxies[k].domains[0].as_str();
        let dup = crate::table::string_in(&seen, d);
        proof {
            crate::table::lemma_push_no_duplicates(crate::table::texts(seen@), d@);
            assert(flat_map(views.take(k + 1), gd) =~= crate::table::texts(seen@).push(d@));
        }
        if dup {
            proof {
                crate::table::lemma_dup_in_prefix(flat_map(views, gd), flat_map(views.take(k + 1), gd));
                assert(views.take(views.len() as int) =~= views);
                let ds = flat_map(views, gd);
                let t = crate::table::texts(seen@);
                let m = t.len() as int;
                assert(ds.take(m + 1) == t.push(d@));
                assert(ds.take(m) =~= ds.take(m + 1).take(m));
                assert(t.push(d@).take(m) =~= t);
                assert(ds[m] == ds.take(m + 1)[m]);
                assert(first_repeat(ds, m));
                assert forall|j: int| !#[trigger] first_refused_entry(b, j) by {
                    if 0 <= j < b.services.services@.len() && proxied(b.services.services@[j].1) {
                        assert(proxy_entry_ok(b, b.services.services@[j].0@, b.services.services@[j].1));
                    }
                }
            }
            return Err(PlanError::DuplicateProxyDomain { domain: d.to_owned() });
        }
        seen.push(d.to_owned());
        proof {
            assert(crate::table::texts(seen@) =~= flat_map(views.take(k + 1), gd));
        }
        k = k + 1;
    }
    proof {
        assert(views.take(views.len() as int) =~= views);
    }
    Ok(ResolvedProxyPlan { proxies })
}
/// A wildcard certificate domain covers exactly one label: `*.S` covers
/// `L.S` if and only if `L` holds no `.`. So `*.suhail.ink` covers
/// `media.suhail.ink` but not `a.media.suhail.ink`.
pub proof fn law_wildcard_covers_one_label(suffix: Seq<char>, label: Seq<char>)
    ensures
        domain_covers(seq!['*', '.'] + suffix, label + seq!['.'] + suffix)
            <==> (forall|k: int| 0 <= k < label.len() ==> label[k] != '.'),
{
    let c = seq!['*', '.'] + suffix;
    let q = label + seq!['.'] + suffix;
    let cut = q.len() - c.skip(2).len();
    assert(c.skip(2) =~= suffix);
    assert(cut == label.len() + 1);
    assert(q.skip(cut) =~= suffix);
    assert(q[cut - 1] == '.');
    assert(is_wildcard(c));
    if forall|k: int| 0 <= k < label.len() ==> label[k] != '.' {
        assert forall|k: int| 0 <= k < cut - 1 implies q[k] != '.' by {
            assert(q[k] == label[k]);
        }
    }
    if domain_covers(c, q) {
        if c == q {
            assert(c.len() == q.len());
            assert(label.len() == 1);
            assert(q[0] == c[0]);
            assert forall|k: int| 0 <= k < label.len() implies label[k] != '.' by {
                assert(label[k] == q[k]);
            }
        } else {
            assert forall|k: int| 0 <= k < label.len() implies label[k] != '.' by {
                assert(q[k] == label[k]);
            }
        }
    }
}

/// A certificate domain covers only itself and, for a wildcard `*.S`, the
/// names one label deeper: whatever `covered` covers is `covered` itself or
/// `L.S` for a label `L` holding no `.`.
pub proof fn law_cover_is_self_or_one_label(covered: Seq<char>, requested: Seq<char>)
    requires
        domain_covers(covered, requested),
    ensures
        requested == covered || (is_wildcard(covered) && exists|label: Seq<char>|
            requested == label + seq!['.'] + covered.skip(2) && forall|k: int| 0 <= k < label.len() ==> #[trigger] label[k] != '.'),
{
    if requested != covered {
        let suffix = covered.skip(2);
        let cut = requested.len() - suffix.len();
        let label = requested.take(cut - 1);
        assert(requested =~= label + seq!['.'] + suffix) by {
            assert(requested.skip(cut) == suffix);
            assert forall|i: int| 0 <= i < requested.len() implies requested[i] == (label + seq!['.'] + suffix)[i] by {
                if i >= cut {
                    assert(requested.skip(cut)[i - cut] == requested[i]);
                }
            }
        }
        assert forall|k: int| 0 <= k < label.len() implies #[trigger] label[k] != '.' by {
            assert(label[k] == requested[k]);
        }
    }
}

} // verus!
