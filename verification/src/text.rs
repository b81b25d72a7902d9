//! Character-level helpers shared by identifiers, names and rendered text.

use vstd::prelude::*;

verus! {

/// ASCII letters and digits.
pub open spec fn is_ascii_alnum(c: char) -> bool {
    ||| ('a' <= c && c <= 'z')
    ||| ('A' <= c && c <= 'Z')
    ||| ('0' <= c && c <= '9')
}

/// ASCII upper-case letters map to lower case; every other character is kept.
pub open spec fn lower_char(c: char) -> char {
    if 'A' <= c && c <= 'Z' {
        ((c as u32) + 32) as char
    } else {
        c
    }
}

/// ASCII lower-case letters map to upper case; every other character is kept.
pub open spec fn upper_char(c: char) -> char {
    if 'a' <= c && c <= 'z' {
        ((c as u32) - 32) as char
    } else {
        c
    }
}

pub open spec fn lower_seq(s: Seq<char>) -> Seq<char> {
    s.map_values(|c: char| lower_char(c))
}

pub fn is_ascii_alnum_exec(c: char) -> (r: bool)
    ensures
        r == is_ascii_alnum(c),
{
    ('a' <= c && c <= 'z') || ('A' <= c && c <= 'Z') || ('0' <= c && c <= '9')
}

pub fn lower_char_exec(c: char) -> (r: char)
    ensures
        r == lower_char(c),
{
    if 'A' <= c && c <= 'Z' {
        let code: u32 = (c as u32) + 32;
        char_from_code(code)
    } else {
        c
    }
}

pub fn upper_char_exec(c: char) -> (r: char)
    ensures
        r == upper_char(c),
{
    if 'a' <= c && c <= 'z' {
        let code: u32 = (c as u32) - 32;
        char_from_code(code)
    } else {
        c
    }
}

/// Wraps `char::from_u32` for an ASCII code point.
#[verifier::external_body]
pub(crate) fn char_from_code(code: u32) -> (r: char)
    requires
        code < 128,
    ensures
        r == code as char,
{
    char::from_u32(code).unwrap()
}

/// The characters of a string slice, in order.
pub fn chars_of(s: &str) -> (r: Vec<char>)
    ensures
        r@ == s@,
{
    let n = s.unicode_len();
    let mut out: Vec<char> = Vec::new();
    let mut i: usize = 0;
    while i < n
        invariant
            n == s@.len(),
            i <= n,
            out@ == s@.subrange(0, i as int),
        decreases n - i,
    {
        out.push(s.get_char(i));
        i = i + 1;
        assert(out@ =~= s@.subrange(0, i as int));
    }
    assert(out@ =~= s@);
    out
}

/// Appends one character to a `String` (std `String::push`).
#[verifier::external_body]
pub(crate) fn push_char(s: &mut String, c: char)
    ensures
        final(s)@ == old(s)@.push(c),
{
    s.push(c);
}

/// Builds a `String` holding exactly the given characters.
pub fn string_from_chars(v: &[char]) -> (r: String)
    ensures
        r@ == v@,
{
    let mut out = String::new();
    let mut i: usize = 0;
    while i < v.len()
        invariant
            i <= v@.len(),
            out@ == v@.subrange(0, i as int),
        decreases v@.len() - i,
    {
        push_char(&mut out, v[i]);
        i = i + 1;
        assert(out@ =~= v@.subrange(0, i as int));
    }
    assert(out@ =~= v@);
    out
}

/// Owned copy of a string slice.
pub fn owned(s: &str) -> (r: String)
    ensures
        r@ == s@,
{
    s.to_owned()
}

/// Character-wise equality of two strings.
pub fn str_eq(a: &str, b: &str) -> (r: bool)
    ensures
        r == (a@ == b@),
{
    let x = a.to_owned();
    let y = b.to_owned();
    x == y
}

/// Concatenation of two strings.
pub fn concat(a: &str, b: &str) -> (r: String)
    ensures
        r@ == a@ + b@,
{
    let mut x = a.to_owned();
    x.append(b);
    x
}

/// Appends `t` to `m`.
pub fn put(m: &mut String, t: &str)
    ensures
        final(m)@ == old(m)@ + t@,
{
    m.append(t);
}

/// Appends the decimal text of `n` to `m`.
pub fn put_decimal(m: &mut String, n: u64)
    ensures
        final(m)@ == old(m)@ + decimal(n as nat),
{
    let t = decimal_text(n);
    m.append(t.as_str());
}

/// Decimal text of a natural number, without leading zeros.
pub open spec fn decimal(n: nat) -> Seq<char>
    decreases n,
{
    if n < 10 {
        seq![digit_char(n)]
    } else {
        decimal(n / 10).push(digit_char(n % 10))
    }
}

pub open spec fn digit_char(d: nat) -> char {
    (('0' as nat) + d) as char
}

/// Decimal text of an unsigned integer, as std's `Display` writes it.
pub fn decimal_text(n: u64) -> (r: String)
    ensures
        r@ == decimal(n as nat),
{
    if n == 0 {
        let z = digit_exec(0);
        let mut v: Vec<char> = Vec::new();
        v.push(z);
        assert(v@ =~= decimal(0));
        return string_from_chars(&v);
    }
    let mut digits: Vec<char> = Vec::new();
    let mut m: u64 = n;
    // `digits` holds the low-order digits already produced, most significant first.
    while m > 0
        invariant
            m > 0 ==> decimal(n as nat) == decimal(m as nat) + digits@,
            m == 0 ==> decimal(n as nat) == digits@,
        decreases m,
    {
        let d: u64 = m % 10;
        let c = digit_exec(d);
        proof {
            lemma_decimal_step(m as nat, digits@);
        }
        let mut next: Vec<char> = Vec::new();
        next.push(c);
        let mut k: usize = 0;
        while k < digits.len()
            invariant
                k <= digits@.len(),
                next@ == seq![c] + digits@.subrange(0, k as int),
            decreases digits@.len() - k,
        {
            next.push(digits[k]);
            k = k + 1;
            assert(next@ =~= seq![c] + digits@.subrange(0, k as int));
        }
        assert(digits@.subrange(0, digits@.len() as int) =~= digits@);
        digits = next;
        m = m / 10;
    }
    string_from_chars(&digits)
}

proof fn lemma_decimal_step(m: nat, tail: Seq<char>)
    requires
        m > 0,
    ensures
        decimal(m) + tail == if m / 10 == 0 {
            seq![digit_char(m % 10)] + tail
        } else {
            decimal(m / 10) + (seq![digit_char(m % 10)] + tail)
        },
{
    if m < 10 {
        assert(m / 10 == 0);
        assert(m % 10 == m);
    } else {
        assert(decimal(m) == decimal(m / 10).push(digit_char(m % 10)));
        assert(decimal(m / 10).push(digit_char(m % 10)) + tail =~= decimal(m / 10) + (seq![
            digit_char(m % 10),
        ] + tail));
    }
}

fn digit_exec(d: u64) -> (r: char)
    requires
        d < 10,
    ensures
        r == digit_char(d as nat),
{
    let code: u32 = 48 + (d as u32);
    char_from_code(code)
}


/// Unicode `White_Space` characters (what `char::is_whitespace` accepts).
pub open spec fn is_ws(c: char) -> bool {
    ||| ('\u{9}' <= c && c <= '\u{d}')
    ||| c == ' '
    ||| c == '\u{85}'
    ||| c == '\u{a0}'
    ||| c == '\u{1680}'
    ||| ('\u{2000}' <= c && c <= '\u{200a}')
    ||| c == '\u{2028}'
    ||| c == '\u{2029}'
    ||| c == '\u{202f}'
    ||| c == '\u{205f}'
    ||| c == '\u{3000}'
}

pub fn is_ws_exec(c: char) -> (r: bool)
    ensures
        r == is_ws(c),
{
    ('\u{9}' <= c && c <= '\u{d}') || c == ' ' || c == '\u{85}' || c == '\u{a0}' || c == '\u{1680}'
        || ('\u{2000}' <= c && c <= '\u{200a}') || c == '\u{2028}' || c == '\u{2029}' || c
        == '\u{202f}' || c == '\u{205f}' || c == '\u{3000}'
}

/// The string is empty once surrounding whitespace is trimmed.
pub open spec fn blank(s: Seq<char>) -> bool {
    forall|i: int| 0 <= i < s.len() ==> is_ws(#[trigger] s[i])
}

pub fn is_blank(s: &str) -> (r: bool)
    ensures
        r == blank(s@),
{
    let v = chars_of(s);
    is_blank_chars(&v)
}

pub fn is_blank_chars(v: &Vec<char>) -> (r: bool)
    ensures
        r == blank(v@),
{
    let mut i: usize = 0;
    while i < v.len()
        invariant
            i <= v@.len(),
            forall|j: int| 0 <= j < i ==> is_ws(#[trigger] v@[j]),
        decreases v@.len() - i,
    {
        if !is_ws_exec(v[i]) {
            return false;
        }
        i = i + 1;
    }
    true
}

/// `s` without leading whitespace.
pub open spec fn trim_start(s: Seq<char>) -> Seq<char>
    decreases s.len(),
{
    if s.len() > 0 && is_ws(s[0]) {
        trim_start(s.skip(1))
    } else {
        s
    }
}

/// `s` without trailing whitespace.
pub open spec fn trim_end(s: Seq<char>) -> Seq<char>
    decreases s.len(),
{
    if s.len() > 0 && is_ws(s.last()) {
        trim_end(s.drop_last())
    } else {
        s
    }
}

/// `s` without surrounding whitespace (`str::trim`).
pub open spec fn trim(s: Seq<char>) -> Seq<char> {
    trim_end(trim_start(s))
}

/// `trim` on characters.
pub fn trim_chars(v: &Vec<char>) -> (r: Vec<char>)
    ensures
        r@ == trim(v@),
{
    let n = v.len();
    let mut a: usize = 0;
    assert(v@.skip(0) =~= v@);
    while a < n && is_ws_exec(v[a])
        invariant
            n == v@.len(),
            a <= n,
            trim_start(v@) == trim_start(v@.skip(a as int)),
        decreases n - a,
    {
        assert(v@.skip(a as int).skip(1) =~= v@.skip(a + 1));
        a = a + 1;
    }
    assert(trim_start(v@.skip(a as int)) == v@.skip(a as int));
    let ghost t = v@.skip(a as int);
    let mut b: usize = n;
    assert(t.subrange(0, (b - a) as int) =~= t);
    while b > a && is_ws_exec(v[b - 1])
        invariant
            n == v@.len(),
            a <= b <= n,
            t == v@.skip(a as int),
            trim_end(t) == trim_end(t.subrange(0, (b - a) as int)),
        decreases b,
    {
        assert(t.subrange(0, (b - a) as int).drop_last() =~= t.subrange(0, (b - 1 - a) as int));
        b = b - 1;
    }
    let mut out: Vec<char> = Vec::new();
    let mut i: usize = a;
    while i < b
        invariant
            a <= i <= b,
            b <= n,
            n == v@.len(),
            out@ == v@.subrange(a as int, i as int),
        decreases b - i,
    {
        out.push(v[i]);
        i = i + 1;
        assert(out@ =~= v@.subrange(a as int, i as int));
    }
    assert(t.subrange(0, (b - a) as int) =~= v@.subrange(a as int, b as int));
    out
}

/// ASCII upper case of every character.
pub open spec fn upper_seq(s: Seq<char>) -> Seq<char> {
    s.map_values(|c: char| upper_char(c))
}

pub fn upper_string(s: &str) -> (r: String)
    ensures
        r@ == upper_seq(s@),
{
    let v = chars_of(s);
    let mut out: Vec<char> = Vec::new();
    let mut i: usize = 0;
    while i < v.len()
        invariant
            v@ == s@,
            i <= v@.len(),
            out@ == upper_seq(v@.subrange(0, i as int)),
        decreases v@.len() - i,
    {
        out.push(upper_char_exec(v[i]));
        i = i + 1;
        assert(out@ =~= upper_seq(v@.subrange(0, i as int)));
    }
    assert(v@.subrange(0, v@.len() as int) =~= v@);
    string_from_chars(&out)
}

/// The string starts with the character `c`.
pub open spec fn starts_with_char(s: Seq<char>, c: char) -> bool {
    s.len() > 0 && s[0] == c
}

pub fn first_char_is(s: &str, c: char) -> (r: bool)
    ensures
        r == starts_with_char(s@, c),
{
    let n = s.unicode_len();
    n > 0 && s.get_char(0) == c
}

pub open spec fn is_digit(c: char) -> bool {
    '0' <= c && c <= '9'
}

/// Value of a string of decimal digits.
pub open spec fn digits_value(d: Seq<char>) -> nat
    decreases d.len(),
{
    if d.len() == 0 {
        0
    } else {
        digits_value(d.drop_last()) * 10 + ((d.last() as nat) - ('0' as nat)) as nat
    }
}

/// The digits of an unsigned number: the text after an optional `+`.
pub open spec fn unsigned_digits(s: Seq<char>) -> Seq<char> {
    if s.len() > 0 && s[0] == '+' {
        s.skip(1)
    } else {
        s
    }
}

pub open spec fn all_digits(d: Seq<char>) -> bool {
    forall|i: int| 0 <= i < d.len() ==> is_digit(#[trigger] d[i])
}

/// What `str::parse::<u16>` accepts: an optional `+`, then at least one
/// decimal digit, with a value of at most 65535.
pub open spec fn parse_u16(s: Seq<char>) -> Option<u16> {
    let d = unsigned_digits(s);
    if d.len() > 0 && all_digits(d) && digits_value(d) <= 65535 {
        Some(digits_value(d) as u16)
    } else {
        None
    }
}

/// `str::parse::<u16>` on characters.
pub fn parse_u16_chars(s: &Vec<char>) -> (r: Option<u16>)
    ensures
        r == parse_u16(s@),
{
    let start: usize = if s.len() > 0 && s[0] == '+' {
        1
    } else {
        0
    };
    let ghost d = s@.skip(start as int);
    assert(d =~= unsigned_digits(s@));
    if start >= s.len() {
        return None;
    }
    let mut value: u64 = 0;
    let mut i: usize = start;
    while i < s.len()
        invariant
            start <= i <= s@.len(),
            d == s@.skip(start as int),
            d == unsigned_digits(s@),
            forall|j: int| 0 <= j < i - start ==> is_digit(#[trigger] d[j]),
            value == digits_value(d.subrange(0, i - start)),
            value <= 65535,
        decreases s@.len() - i,
    {
        let c = s[i];
        assert(d[i - start] == c);
        if !('0' <= c && c <= '9') {
            assert(!is_digit(d[i - start]));
            assert(!all_digits(d));
            return None;
        }
        let digit: u64 = (c as u32 - '0' as u32) as u64;
        let next: u64 = value * 10 + digit;
        proof {
            let p = d.subrange(0, i + 1 - start);
            assert(p.drop_last() =~= d.subrange(0, i - start));
            assert(p.last() == c);
        }
        if next > 65535 {
            proof {
                if all_digits(d) {
                    lemma_digits_value_prefix_bound(d, (i + 1 - start) as int);
                }
            }
            return None;
        }
        value = next;
        i = i + 1;
    }
    assert(d.subrange(0, d.len() as int) =~= d);
    Some(value as u16)
}

/// The value of a digit string is at least the value of any prefix.
pub proof fn lemma_digits_value_prefix_bound(d: Seq<char>, k: int)
    requires
        0 <= k <= d.len(),
        all_digits(d),
    ensures
        digits_value(d) >= digits_value(d.subrange(0, k)),
    decreases d.len() - k,
{
    if k < d.len() {
        lemma_digits_value_prefix_bound(d, k + 1);
        let p = d.subrange(0, k + 1);
        assert(p.drop_last() =~= d.subrange(0, k));
        assert(is_digit(d[k]));
    } else {
        assert(d.subrange(0, k) =~= d);
    }
}
/// `k` is the first position of `c` in `t`.
pub open spec fn is_first(t: Seq<char>, c: char, k: int) -> bool {
    &&& 0 <= k < t.len()
    &&& t[k] == c
    &&& forall|j: int| 0 <= j < k ==> t[j] != c
}

/// The first position of `c` in `t`, or -1.
pub open spec fn first_index(t: Seq<char>, c: char) -> int {
    if exists|k: int| is_first(t, c, k) {
        choose|k: int| is_first(t, c, k)
    } else {
        -1
    }
}

pub proof fn lemma_first_index(t: Seq<char>, c: char, k: int)
    requires
        0 <= k <= t.len(),
        forall|j: int| 0 <= j < k ==> t[j] != c,
        k < t.len() ==> t[k] == c,
    ensures
        first_index(t, c) == if k < t.len() { k } else { -1 },
{
    if k < t.len() {
        assert(is_first(t, c, k));
        let m = choose|m: int| is_first(t, c, m);
        assert(is_first(t, c, m));
        if m < k {
            assert(t[m] != c);
        }
        if k < m {
            assert(t[k] != c);
        }
    } else {
        if exists|m: int| is_first(t, c, m) {
            let m = choose|m: int| is_first(t, c, m);
            assert(t[m] != c);
        }
    }
}

/// The characters from position `from` up to `to`.
pub fn slice_chars(v: &Vec<char>, from: usize, to: usize) -> (r: Vec<char>)
    requires
        from <= to <= v@.len(),
    ensures
        r@ == v@.subrange(from as int, to as int),
{
    let mut out: Vec<char> = Vec::new();
    let mut i: usize = from;
    while i < to
        invariant
            from <= i <= to,
            to <= v@.len(),
            out@ == v@.subrange(from as int, i as int),
        decreases to - i,
    {
        out.push(v[i]);
        i = i + 1;
        assert(out@ =~= v@.subrange(from as int, i as int));
    }
    out
}

/// Position of the first `c` in `v`, or the length of `v` if there is none.
pub fn index_of(v: &Vec<char>, c: char) -> (r: usize)
    ensures
        r <= v@.len(),
        first_index(v@, c) == if r < v@.len() { r as int } else { -1 },
{
    let mut k: usize = 0;
    while k < v.len() && v[k] != c
        invariant
            k <= v@.len(),
            forall|j: int| 0 <= j < k ==> v@[j] != c,
        decreases v@.len() - k,
    {
        k = k + 1;
    }
    proof {
        lemma_first_index(v@, c, k as int);
    }
    k
}


/// Lexicographic order of texts by character code (the order of `str`).
pub open spec fn text_lt(a: Seq<char>, b: Seq<char>) -> bool
    decreases a.len(),
{
    if a.len() == 0 {
        b.len() > 0
    } else if b.len() == 0 {
        false
    } else if a[0] == b[0] {
        text_lt(a.skip(1), b.skip(1))
    } else {
        (a[0] as u32) < (b[0] as u32)
    }
}

/// Whether `a` sorts strictly before `b`.
pub fn text_less(a: &str, b: &str) -> (r: bool)
    ensures
        r == text_lt(a@, b@),
{
    let x = chars_of(a);
    let y = chars_of(b);
    let mut i: usize = 0;
    assert(x@.skip(0) =~= x@);
    assert(y@.skip(0) =~= y@);
    while i < x.len() && i < y.len() && x[i] == y[i]
        invariant
            i <= x@.len(),
            i <= y@.len(),
            text_lt(a@, b@) == text_lt(x@.skip(i as int), y@.skip(i as int)),
            x@ == a@,
            y@ == b@,
        decreases x@.len() - i,
    {
        assert(x@.skip(i as int).skip(1) =~= x@.skip(i + 1));
        assert(y@.skip(i as int).skip(1) =~= y@.skip(i + 1));
        i = i + 1;
    }
    if i == x.len() {
        i < y.len()
    } else if i == y.len() {
        false
    } else {
        (x[i] as u32) < (y[i] as u32)
    }
}

/// `text_lt` is irreflexive.
pub proof fn lemma_text_lt_irreflexive(a: Seq<char>)
    ensures
        !text_lt(a, a),
    decreases a.len(),
{
    if a.len() > 0 {
        lemma_text_lt_irreflexive(a.skip(1));
    }
}

/// A character's `u32` code is its scalar value.
pub proof fn lemma_char_code(c: char)
    ensures
        (c as u32) as int == c as int,
{
}

/// `text_lt` is transitive.
pub proof fn lemma_text_lt_transitive(a: Seq<char>, b: Seq<char>, c: Seq<char>)
    requires
        text_lt(a, b),
        text_lt(b, c),
    ensures
        text_lt(a, c),
    decreases a.len(),
{
    if a.len() > 0 && b.len() > 0 && c.len() > 0 && a[0] == b[0] && b[0] == c[0] {
        lemma_text_lt_transitive(a.skip(1), b.skip(1), c.skip(1));
    }
}

/// Of two different texts, one sorts before the other, and not both ways.
pub proof fn lemma_text_lt_total(a: Seq<char>, b: Seq<char>)
    ensures
        a != b ==> (text_lt(a, b) || text_lt(b, a)),
        !(text_lt(a, b) && text_lt(b, a)),
    decreases a.len(),
{
    if a.len() > 0 && b.len() > 0 && a[0] == b[0] {
        lemma_text_lt_total(a.skip(1), b.skip(1));
        if a != b {
            assert(a.skip(1) != b.skip(1)) by {
                if a.skip(1) == b.skip(1) {
                    assert(a =~= seq![a[0]] + a.skip(1));
                    assert(b =~= seq![b[0]] + b.skip(1));
                }
            }
        }
    } else if a.len() == 0 && b.len() == 0 {
        assert(a =~= b);
    } else if a.len() > 0 && b.len() > 0 {
        lemma_char_code(a[0]);
        lemma_char_code(b[0]);
    }
}

pub open spec fn is_hex_digit(c: char) -> bool {
    ('0' <= c && c <= '9') || ('a' <= c && c <= 'f') || ('A' <= c && c <= 'F')
}

pub open spec fn hex_digit_value(c: char) -> nat {
    if '0' <= c && c <= '9' {
        ((c as nat) - ('0' as nat)) as nat
    } else if 'a' <= c && c <= 'f' {
        ((c as nat) - ('a' as nat) + 10) as nat
    } else {
        ((c as nat) - ('A' as nat) + 10) as nat
    }
}

/// Value of a string of hexadecimal digits.
pub open spec fn hex_value(d: Seq<char>) -> nat
    decreases d.len(),
{
    if d.len() == 0 {
        0
    } else {
        hex_value(d.drop_last()) * 16 + hex_digit_value(d.last())
    }
}

pub open spec fn all_hex_digits(d: Seq<char>) -> bool {
    forall|i: int| 0 <= i < d.len() ==> is_hex_digit(#[trigger] d[i])
}

/// What `u64::from_str_radix(s, 16)` accepts: an optional `+`, then at least
/// one hexadecimal digit, with a value that fits in 64 bits.
pub open spec fn parse_hex_u64(s: Seq<char>) -> Option<u64> {
    let d = unsigned_digits(s);
    if d.len() > 0 && all_hex_digits(d) && hex_value(d) <= u64::MAX {
        Some(hex_value(d) as u64)
    } else {
        None
    }
}

pub proof fn lemma_hex_value_prefix_bound(d: Seq<char>, k: int)
    requires
        0 <= k <= d.len(),
        all_hex_digits(d),
    ensures
        hex_value(d) >= hex_value(d.subrange(0, k)),
    decreases d.len() - k,
{
    if k < d.len() {
        lemma_hex_value_prefix_bound(d, k + 1);
        let p = d.subrange(0, k + 1);
        assert(p.drop_last() =~= d.subrange(0, k));
    } else {
        assert(d.subrange(0, k) =~= d);
    }
}

/// `u64::from_str_radix(_, 16)` on characters.
pub fn parse_hex_u64_chars(s: &Vec<char>) -> (r: Option<u64>)
    ensures
        r == parse_hex_u64(s@),
{
    let start: usize = if s.len() > 0 && s[0] == '+' {
        1
    } else {
        0
    };
    let ghost d = s@.skip(start as int);
    assert(d =~= unsigned_digits(s@));
    if start >= s.len() {
        return None;
    }
    let mut value: u64 = 0;
    let mut i: usize = start;
    while i < s.len()
        invariant
            start <= i <= s@.len(),
            d == s@.skip(start as int),
            d == unsigned_digits(s@),
            forall|j: int| 0 <= j < i - start ==> is_hex_digit(#[trigger] d[j]),
            value == hex_value(d.subrange(0, i - start)),
        decreases s@.len() - i,
    {
        let c = s[i];
        assert(d[i - start] == c);
        let digit: u64 = if '0' <= c && c <= '9' {
            (c as u32 - '0' as u32) as u64
        } else if 'a' <= c && c <= 'f' {
            (c as u32 - 'a' as u32 + 10) as u64
        } else if 'A' <= c && c <= 'F' {
            (c as u32 - 'A' as u32 + 10) as u64
        } else {
            assert(!all_hex_digits(d));
            return None;
        };
        proof {
            let p = d.subrange(0, i + 1 - start);
            assert(p.drop_last() =~= d.subrange(0, i - start));
            assert(p.last() == c);
        }
        if value > (u64::MAX - digit) / 16 {
            proof {
                assert(hex_value(d.subrange(0, i + 1 - start)) == value * 16 + digit);
                assert(value * 16 + digit > u64::MAX) by (nonlinear_arith)
                    requires
                        value > (u64::MAX - digit) / 16,
                        digit < 16,
                ;
                if all_hex_digits(d) {
                    lemma_hex_value_prefix_bound(d, (i + 1 - start) as int);
                }
            }
            return None;
        }
        proof {
            assert(value * 16 + digit <= u64::MAX) by (nonlinear_arith)
                requires
                    value <= (u64::MAX - digit) / 16,
                    digit < 16,
            ;
        }
        value = value * 16 + digit;
        i = i + 1;
    }
    assert(d.subrange(0, d.len() as int) =~= d);
    Some(value)
}

/// `s` with every `:` removed.
pub open spec fn without_colons(s: Seq<char>) -> Seq<char>
    decreases s.len(),
{
    if s.len() == 0 {
        s
    } else if s.last() == ':' {
        without_colons(s.drop_last())
    } else {
        without_colons(s.drop_last()).push(s.last())
    }
}

pub fn remove_colons(s: &str) -> (r: Vec<char>)
    ensures
        r@ == without_colons(s@),
{
    let v = chars_of(s);
    let mut out: Vec<char> = Vec::new();
    let mut i: usize = 0;
    while i < v.len()
        invariant
            v@ == s@,
            i <= v@.len(),
            out@ == without_colons(v@.take(i as int)),
        decreases v@.len() - i,
    {
        proof {
            assert(v@.take(i + 1).drop_last() =~= v@.take(i as int));
        }
        if v[i] != ':' {
            out.push(v[i]);
        }
        i = i + 1;
    }
    assert(v@.take(v@.len() as int) =~= v@);
    out
}
} // verus!
