//! Validated identifiers and normalized domain names.

use vstd::prelude::*;

use crate::text::{chars_of, owned, put, is_ascii_alnum, is_ascii_alnum_exec, lower_char, lower_char_exec, lower_seq, string_from_chars, upper_char, upper_seq};

verus! {

/// Which kind of name was rejected.
#[derive(Clone, Copy, Debug, PartialEq, Eq)]
pub enum IdKind {
    Proxy,
    Certificate,
    Host,
    Service,
    Domain,
}

/// A value that is not a valid identifier or domain name.
#[derive(Clone, Debug, PartialEq, Eq)]
pub struct IdError {
    pub kind: IdKind,
    pub value: String,
}

/// The word naming a kind of identifier in messages.
pub open spec fn id_kind_name(k: IdKind) -> Seq<char> {
    match k {
        IdKind::Proxy => "proxy"@,
        IdKind::Certificate => "certificate"@,
        IdKind::Host => "host"@,
        IdKind::Service => "service"@,
        IdKind::Domain => "domain"@,
    }
}

/// The message reporting a rejected identifier or domain name.
pub open spec fn id_error_message(e: IdError) -> Seq<char> {
    match e.kind {
        IdKind::Domain => "invalid domain name '"@ + e.value@ + "'"@,
        _ => "invalid "@ + id_kind_name(e.kind) + " identifier '"@ + e.value@ + "'"@,
    }
}

impl IdKind {
    /// The word naming this kind of identifier.
    pub fn name(self) -> (r: &'static str)
        ensures
            r@ == id_kind_name(self),
    {
        match self {
            IdKind::Proxy => "proxy",
            IdKind::Certificate => "certificate",
            IdKind::Host => "host",
            IdKind::Service => "service",
            IdKind::Domain => "domain",
        }
    }
}

impl IdError {
    /// The message reporting this error.
    pub fn message(&self) -> (r: String)
        ensures
            r@ == id_error_message(*self),
    {
        match self.kind {
            IdKind::Domain => {
                let mut m = owned("invalid domain name '");
                put(&mut m, self.value.as_str());
                put(&mut m, "'");
                m
            },
            _ => {
                let mut m = owned("invalid ");
                put(&mut m, self.kind.name());
                put(&mut m, " identifier '");
                put(&mut m, self.value.as_str());
                put(&mut m, "'");
                m
            },
        }
    }
}

/// A character allowed in an identifier.
pub open spec fn identifier_char(c: char) -> bool {
    is_ascii_alnum(c) || c == '-' || c == '_'
}

/// An identifier is non-empty and made of ASCII letters, digits, `-` and `_`.
pub open spec fn valid_identifier(s: Seq<char>) -> bool {
    &&& s.len() > 0
    &&& forall|i: int| 0 <= i < s.len() ==> identifier_char(#[trigger] s[i])
}

/// Decides `valid_identifier` for a string slice.
pub fn is_valid_identifier(value: &str) -> (r: bool)
    ensures
        r == valid_identifier(value@),
{
    let chars = chars_of(value);
    if chars.len() == 0 {
        return false;
    }
    let mut i: usize = 0;
    while i < chars.len()
        invariant
            chars@ == value@,
            i <= chars@.len(),
            forall|j: int| 0 <= j < i ==> identifier_char(#[trigger] chars@[j]),
        decreases chars@.len() - i,
    {
        let c = chars[i];
        if !(is_ascii_alnum_exec(c) || c == '-' || c == '_') {
            return false;
        }
        i = i + 1;
    }
    true
}

/// Identifier of a reverse-proxy entry.
#[derive(Clone, Debug, PartialEq, Eq, PartialOrd, Ord, Hash)]
pub struct ProxyId(String);

/// Identifier of a certificate reference.
#[derive(Clone, Debug, PartialEq, Eq, PartialOrd, Ord, Hash)]
pub struct CertificateId(String);

/// Identifier of an inventory host.
#[derive(Clone, Debug, PartialEq, Eq, PartialOrd, Ord, Hash)]
pub struct HostId(String);

/// Identifier of a service.
#[derive(Clone, Debug, PartialEq, Eq, PartialOrd, Ord, Hash)]
pub struct ServiceId(String);

impl View for ProxyId {
    type V = Seq<char>;

    closed spec fn view(&self) -> Seq<char> {
        self.0@
    }
}

impl View for CertificateId {
    type V = Seq<char>;

    closed spec fn view(&self) -> Seq<char> {
        self.0@
    }
}

impl View for HostId {
    type V = Seq<char>;

    closed spec fn view(&self) -> Seq<char> {
        self.0@
    }
}

impl View for ServiceId {
    type V = Seq<char>;

    closed spec fn view(&self) -> Seq<char> {
        self.0@
    }
}

impl ProxyId {
    /// Accepts exactly the valid identifiers, keeping the text unchanged.
    pub fn new(value: &str) -> (r: Result<Self, IdError>)
        ensures
            r is Ok <==> valid_identifier(value@),
            r matches Ok(id) ==> id@ == value@,
            r matches Err(e) ==> e.kind == IdKind::Proxy && e.value@ == value@,
    {
        if is_valid_identifier(value) {
            Ok(ProxyId(value.to_owned()))
        } else {
            Err(IdError { kind: IdKind::Proxy, value: value.to_owned() })
        }
    }

    pub fn as_str(&self) -> (r: &str)
        ensures
            r@ == self@,
    {
        self.0.as_str()
    }
}

impl CertificateId {
    /// Accepts exactly the valid identifiers, keeping the text unchanged.
    pub fn new(value: &str) -> (r: Result<Self, IdError>)
        ensures
            r is Ok <==> valid_identifier(value@),
            r matches Ok(id) ==> id@ == value@,
            r matches Err(e) ==> e.kind == IdKind::Certificate && e.value@ == value@,
    {
        if is_valid_identifier(value) {
            Ok(CertificateId(value.to_owned()))
        } else {
            Err(IdError { kind: IdKind::Certificate, value: value.to_owned() })
        }
    }

    pub fn as_str(&self) -> (r: &str)
        ensures
            r@ == self@,
    {
        self.0.as_str()
    }
}

impl HostId {
    /// Accepts exactly the valid identifiers, keeping the text unchanged.
    pub fn new(value: &str) -> (r: Result<Self, IdError>)
        ensures
            r is Ok <==> valid_identifier(value@),
            r matches Ok(id) ==> id@ == value@,
            r matches Err(e) ==> e.kind == IdKind::Host && e.value@ == value@,
    {
        if is_valid_identifier(value) {
            Ok(HostId(value.to_owned()))
        } else {
            Err(IdError { kind: IdKind::Host, value: value.to_owned() })
        }
    }

    pub fn as_str(&self) -> (r: &str)
        ensures
            r@ == self@,
    {
        self.0.as_str()
    }
}

impl ServiceId {
    /// Accepts exactly the valid identifiers, keeping the text unchanged.
    pub fn new(value: &str) -> (r: Result<Self, IdError>)
        ensures
            r is Ok <==> valid_identifier(value@),
            r matches Ok(id) ==> id@ == value@,
            r matches Err(e) ==> e.kind == IdKind::Service && e.value@ == value@,
    {
        if is_valid_identifier(value) {
            Ok(ServiceId(value.to_owned()))
        } else {
            Err(IdError { kind: IdKind::Service, value: value.to_owned() })
        }
    }

    pub fn as_str(&self) -> (r: &str)
        ensures
            r@ == self@,
    {
        self.0.as_str()
    }
}

/// `s` with every trailing `.` removed.
pub open spec fn trim_end_dots(s: Seq<char>) -> Seq<char>
    decreases s.len(),
{
    if s.len() > 0 && s.last() == '.' {
        trim_end_dots(s.drop_last())
    } else {
        s
    }
}

/// `s` without a leading `*.`, if it has one.
pub open spec fn strip_wildcard(s: Seq<char>) -> Seq<char> {
    if s.len() >= 2 && s[0] == '*' && s[1] == '.' {
        s.skip(2)
    } else {
        s
    }
}

/// The normalized form of a domain name: trailing dots removed, ASCII lower case.
pub open spec fn normalize_domain(s: Seq<char>) -> Seq<char> {
    lower_seq(trim_end_dots(s))
}

/// A character allowed inside a domain label.
pub open spec fn label_char(c: char) -> bool {
    is_ascii_alnum(c) || c == '-'
}

/// Number of consecutive non-dot characters that end just before position `i`.
pub open spec fn run_len(s: Seq<char>, i: int) -> nat
    decreases i,
{
    if i <= 0 {
        0
    } else if s[i - 1] == '.' {
        0
    } else {
        run_len(s, i - 1) + 1
    }
}

/// `s`, split at each `.`, is a list of labels, each non-empty, at most 63
/// characters long, made of letters, digits and `-`, and neither starting nor
/// ending with `-`.
pub open spec fn valid_labels(s: Seq<char>) -> bool {
    &&& s.len() > 0
    &&& s.last() != '.'
    &&& s.last() != '-'
    &&& forall|i: int| 0 <= i < s.len() ==> (#[trigger] s[i] == '.' || label_char(s[i]))
    // a dot closes a non-empty label that does not end with '-'
    &&& forall|i: int| 0 <= i < s.len() && #[trigger] s[i] == '.' ==> i > 0 && s[i - 1] != '.' && s[i - 1] != '-'
    // a '-' never opens a label
    &&& forall|i: int| 0 <= i < s.len() && #[trigger] s[i] == '-' ==> i > 0 && s[i - 1] != '.'
    &&& forall|i: int| 0 <= i <= s.len() ==> #[trigger] run_len(s, i) <= 63
}

/// A domain name is valid when its normalized form is at most 253 characters
/// and, after an optional leading `*.`, consists of valid labels.
pub open spec fn valid_domain(value: Seq<char>) -> bool {
    let normalized = normalize_domain(value);
    normalized.len() <= 253 && valid_labels(strip_wildcard(normalized))
}

/// A normalized, validated DNS name (possibly a `*.` wildcard).
#[derive(Debug, PartialEq, Eq, PartialOrd, Ord, Hash)]
pub struct DomainName(String);

impl Clone for DomainName {
    fn clone(&self) -> (r: Self)
        ensures
            r@ == self@,
    {
        proof {
            use_type_invariant(self);
        }
        DomainName(self.0.clone())
    }
}

impl View for DomainName {
    type V = Seq<char>;

    closed spec fn view(&self) -> Seq<char> {
        self.0@
    }
}

impl DomainName {
    /// The text of a `DomainName` is a valid domain name in normalized form.
    #[verifier::type_invariant]
    spec fn normalized_and_valid(self) -> bool {
        &&& valid_domain(self.0@)
        &&& normalize_domain(self.0@) == self.0@
    }
}

/// `s` with every trailing `.` removed.
pub fn trim_end_dots_exec(s: &Vec<char>) -> (r: Vec<char>)
    ensures
        r@ == trim_end_dots(s@),
{
    let mut n = s.len();
    assert(s@.subrange(0, n as int) =~= s@);
    while n > 0 && s[n - 1] == '.'
        invariant
            n <= s@.len(),
            trim_end_dots(s@) == trim_end_dots(s@.subrange(0, n as int)),
        decreases n,
    {
        proof {
            let t = s@.subrange(0, n as int);
            assert(t.drop_last() =~= s@.subrange(0, n - 1));
        }
        n = n - 1;
    }
    let mut out: Vec<char> = Vec::new();
    let mut i: usize = 0;
    while i < n
        invariant
            n <= s@.len(),
            i <= n,
            out@ == s@.subrange(0, i as int),
        decreases n - i,
    {
        out.push(s[i]);
        i = i + 1;
        assert(out@ =~= s@.subrange(0, i as int));
    }
    proof {
        assert(s@.subrange(0, s@.len() as int) =~= s@);
    }
    out
}

fn lower_exec(s: &Vec<char>) -> (r: Vec<char>)
    ensures
        r@ == lower_seq(s@),
{
    let mut out: Vec<char> = Vec::new();
    let mut i: usize = 0;
    while i < s.len()
        invariant
            i <= s@.len(),
            out@ == lower_seq(s@.subrange(0, i as int)),
        decreases s@.len() - i,
    {
        out.push(lower_char_exec(s[i]));
        i = i + 1;
        assert(out@ =~= lower_seq(s@.subrange(0, i as int)));
    }
    assert(s@.subrange(0, s@.len() as int) =~= s@);
    out
}

fn labels_ok_exec(s: &Vec<char>, start: usize) -> (r: bool)
    requires
        start <= s@.len(),
    ensures
        r == valid_labels(s@.skip(start as int)),
{
    let ghost t = s@.skip(start as int);
    let n = s.len();
    if start == n {
        return false;
    }
    if s[n - 1] == '.' || s[n - 1] == '-' {
        return false;
    }
    let mut i: usize = start;
    let mut run: usize = 0;
    while i < n
        invariant
            start < n,
            n == s@.len(),
            t == s@.skip(start as int),
            start <= i <= n,
            run == run_len(t, i - start),
            run <= 63,
            forall|j: int| 0 <= j < i - start ==> (#[trigger] t[j] == '.' || label_char(t[j])),
            forall|j: int| 0 <= j < i - start && #[trigger] t[j] == '.' ==> j > 0 && t[j - 1] != '.' && t[j - 1] != '-',
            forall|j: int| 0 <= j < i - start && #[trigger] t[j] == '-' ==> j > 0 && t[j - 1] != '.',
            forall|j: int| 0 <= j <= i - start ==> #[trigger] run_len(t, j) <= 63,
        decreases n - i,
    {
        let k: usize = i - start;
        let c = s[i];
        assert(t[k as int] == c);
        if c == '.' {
            if k == 0 || s[i - 1] == '.' || s[i - 1] == '-' {
                assert(!(k > 0 && t[k - 1] != '.' && t[k - 1] != '-'));
                return false;
            }
            run = 0;
        } else if c == '-' || is_ascii_alnum_exec(c) {
            if c == '-' && (k == 0 || s[i - 1] == '.') {
                return false;
            }
            if run == 63 {
                assert(run_len(t, k + 1) == 64);
                return false;
            }
            run = run + 1;
        } else {
            return false;
        }
        i = i + 1;
        assert(run == run_len(t, i - start));
    }
    assert(t.len() == n - start);
    assert(t.last() == s@[n - 1]);
    true
}

impl DomainName {
    /// Normalizes (trailing dots removed, ASCII lower case) and validates a
    /// domain name.
    pub fn new(value: &str) -> (r: Result<Self, IdError>)
        ensures
            r is Ok <==> valid_domain(value@),
            r matches Ok(d) ==> d@ == normalize_domain(value@),
            r matches Err(e) ==> e.kind == IdKind::Domain && e.value@ == value@,
    {
        let chars = chars_of(value);
        let trimmed = trim_end_dots_exec(&chars);
        let normalized = lower_exec(&trimmed);
        let start: usize = if normalized.len() >= 2 && normalized[0] == '*' && normalized[1] == '.' {
            2
        } else {
            0
        };
        proof {
            assert(strip_wildcard(normalized@) =~= normalized@.skip(start as int));
        }
        let valid = normalized.len() <= 253 && labels_ok_exec(&normalized, start);
        if valid {
            proof {
                law_normalized_domain_is_stable(value@);
            }
            Ok(DomainName(string_from_chars(normalized.as_slice())))
        } else {
            Err(IdError { kind: IdKind::Domain, value: value.to_owned() })
        }
    }

    /// The text: a valid domain name in normalized form, so not empty, at
    /// most 253 characters, without a trailing dot and without ASCII upper
    /// case.
    pub fn as_str(&self) -> (r: &str)
        ensures
            r@ == self@,
            valid_domain(r@),
            normalize_domain(r@) == r@,
            0 < r@.len() <= 253,
            r@.last() != '.',
            forall|i: int| 0 <= i < r@.len() ==> !('A' <= #[trigger] r@[i] && r@[i] <= 'Z'),
    {
        proof {
            use_type_invariant(self);
            lemma_normalized_text(self.0@);
        }
        self.0.as_str()
    }
}

proof fn lemma_trim_end_dots_fixed(x: Seq<char>)
    requires
        x.len() == 0 || x.last() != '.',
    ensures
        trim_end_dots(x) == x,
{
}

proof fn lemma_trim_end_dots_no_trailing(s: Seq<char>)
    ensures
        trim_end_dots(s).len() == 0 || trim_end_dots(s).last() != '.',
    decreases s.len(),
{
    if s.len() > 0 && s.last() == '.' {
        lemma_trim_end_dots_no_trailing(s.drop_last());
    }
}

/// Normalizing a valid domain name once is enough: its normalized text is
/// again valid and normalizes to itself, so a `DomainName` built from the
/// text of another is equal to it.
pub proof fn law_normalized_domain_is_stable(s: Seq<char>)
    requires
        valid_domain(s),
    ensures
        normalize_domain(normalize_domain(s)) == normalize_domain(s),
        valid_domain(normalize_domain(s)),
{
    let x = trim_end_dots(s);
    let n = lower_seq(x);
    lemma_trim_end_dots_no_trailing(s);
    if n.len() > 0 {
        assert(n.last() == crate::text::lower_char(x.last()));
    }
    lemma_trim_end_dots_fixed(n);
    assert(lower_seq(n) =~= n);
}

/// The text of a valid domain name in normalized form is not empty, has no
/// trailing dot and no ASCII upper case.
proof fn lemma_normalized_text(t: Seq<char>)
    requires
        valid_domain(t),
        normalize_domain(t) == t,
    ensures
        0 < t.len() <= 253,
        t.last() != '.',
        forall|i: int| 0 <= i < t.len() ==> !('A' <= #[trigger] t[i] && t[i] <= 'Z'),
{
    let w = strip_wildcard(t);
    assert(w.len() > 0 && w.last() != '.');
    if t.len() >= 2 && t[0] == '*' && t[1] == '.' {
        assert(w.last() == t.last());
    }
    let x = trim_end_dots(t);
    assert forall|i: int| 0 <= i < t.len() implies !('A' <= #[trigger] t[i] && t[i] <= 'Z') by {
        assert(t[i] == lower_char(x[i]));
    }
}

/// Removing trailing dots ignores dots appended at the end.
proof fn lemma_trim_end_dots_appended(s: Seq<char>, n: nat)
    ensures
        trim_end_dots(s + Seq::new(n, |k: int| '.')) == trim_end_dots(s),
    decreases n,
{
    if n > 0 {
        let d = Seq::new(n, |k: int| '.');
        let d1 = Seq::new((n - 1) as nat, |k: int| '.');
        assert((s + d).drop_last() =~= s + d1);
        lemma_trim_end_dots_appended(s, (n - 1) as nat);
    } else {
        assert(s + Seq::new(n, |k: int| '.') =~= s);
    }
}

/// Upper-casing commutes with removing trailing dots.
proof fn lemma_trim_end_dots_upper(s: Seq<char>)
    ensures
        trim_end_dots(upper_seq(s)) == upper_seq(trim_end_dots(s)),
    decreases s.len(),
{
    if s.len() > 0 {
        assert(upper_seq(s).drop_last() =~= upper_seq(s.drop_last()));
        assert(upper_seq(s).last() == upper_char(s.last()));
        lemma_trim_end_dots_upper(s.drop_last());
    }
}

/// A domain name is read without regard to ASCII case or to extra trailing
/// dots: the upper-cased text with `n` more dots appended normalizes to the
/// same name, and is valid exactly when the text is.
pub proof fn law_domain_ignores_case_and_trailing_dots(v: Seq<char>, n: nat)
    ensures
        normalize_domain(upper_seq(v) + Seq::new(n, |k: int| '.')) == normalize_domain(v),
        valid_domain(upper_seq(v) + Seq::new(n, |k: int| '.')) == valid_domain(v),
{
    lemma_trim_end_dots_appended(upper_seq(v), n);
    lemma_trim_end_dots_upper(v);
    let x = trim_end_dots(v);
    assert(lower_seq(upper_seq(x)) =~= lower_seq(x)) by {
        assert forall|i: int| 0 <= i < x.len() implies lower_seq(upper_seq(x))[i] == lower_seq(x)[i] by {
            let c = x[i];
            if 'a' <= c && c <= 'z' {
                assert(upper_char(c) as u32 == (c as u32) - 32);
            }
        }
    }
}

} // verus!
