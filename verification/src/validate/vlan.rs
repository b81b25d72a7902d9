//! VLAN lists of VLAN-aware bridges.

use vstd::prelude::*;

use super::{host_network_error, ValidationError};
use crate::text::{slice_chars, first_index, lemma_first_index, blank, chars_of, is_blank_chars, owned, parse_u16, parse_u16_chars, string_from_chars, trim, trim_chars};

verus! {

/// A VLAN ID usable on a bridge.
pub open spec fn vlan_id_ok(vlan: u16) -> bool {
    1 <= vlan && vlan <= 4094
}

/// `s` split at every occurrence of `sep` (`str::split`).
pub open spec fn split_on(s: Seq<char>, sep: char) -> Seq<Seq<char>>
    decreases s.len(),
{
    if s.len() == 0 {
        seq![Seq::<char>::empty()]
    } else {
        let p = split_on(s.drop_last(), sep);
        if s.last() == sep {
            p.push(Seq::<char>::empty())
        } else {
            p.update(p.len() - 1, p.last().push(s.last()))
        }
    }
}

pub proof fn lemma_split_on_nonempty(s: Seq<char>, sep: char)
    ensures
        split_on(s, sep).len() >= 1,
    decreases s.len(),
{
    if s.len() > 0 {
        lemma_split_on_nonempty(s.drop_last(), sep);
    }
}

/// One entry of a VLAN list (already trimmed): a VLAN ID or an ascending
/// range `start-end` of VLAN IDs.
pub open spec fn vlan_item_ok(t: Seq<char>) -> bool {
    let k = first_index(t, '-');
    &&& t.len() > 0
    &&& if k >= 0 {
        match (parse_u16(t.take(k)), parse_u16(t.skip(k + 1))) {
            (Some(a), Some(b)) => vlan_id_ok(a) && vlan_id_ok(b) && a <= b,
            _ => false,
        }
    } else {
        parse_u16(t) matches Some(v) && vlan_id_ok(v)
    }
}

/// A VLAN list: not blank, and every comma-separated entry, trimmed, is a
/// VLAN ID or an ascending range of VLAN IDs.
pub open spec fn vlan_expression_ok(expr: Seq<char>) -> bool {
    let items = split_on(expr, ',');
    &&& !blank(expr)
    &&& forall|i: int| 0 <= i < items.len() ==> vlan_item_ok(trim(#[trigger] items[i]))
}

/// Why entry `t` (trimmed) of VLAN list `expr` of bridge `bridge` on
/// `host` is refused: it is empty; a bound or the VLAN ID is not a number;
/// a bound or the VLAN ID is outside 1-4094 (the start first); a range
/// descends.
pub open spec fn vlan_item_refusal(host: Seq<char>, bridge: Seq<char>, expr: Seq<char>, t: Seq<char>, e: ValidationError) -> bool {
    let k = first_index(t, '-');
    let invalid = e matches ValidationError::InvalidVlanValue { host: h, bridge: br, item } && h@ == host && br@ == bridge && item@ == t;
    let out_of_range = |v: u16| e matches ValidationError::VlanOutOfRange { host: h, bridge: br, vlan } && h@ == host && br@ == bridge && vlan == v;
    if t.len() == 0 {
        e matches ValidationError::InvalidVlanExpression { host: h, bridge: br, expression } && h@ == host && br@ == bridge && expression@ == expr
    } else if k >= 0 {
        match (parse_u16(t.take(k)), parse_u16(t.skip(k + 1))) {
            (Some(a), Some(c)) => if !vlan_id_ok(a) {
                out_of_range(a)
            } else if !vlan_id_ok(c) {
                out_of_range(c)
            } else {
                e matches ValidationError::DescendingVlanRange { host: h, bridge: br, item } && h@ == host && br@ == bridge && item@ == t
            },
            _ => invalid,
        }
    } else {
        match parse_u16(t) {
            None => invalid,
            Some(v) => out_of_range(v),
        }
    }
}

/// Why VLAN list `expr` is refused: it is blank, or its first entry that is
/// refused.
pub open spec fn vlan_expression_refusal(host: Seq<char>, bridge: Seq<char>, expr: Seq<char>, e: ValidationError) -> bool {
    let items = split_on(expr, ',');
    if blank(expr) {
        e matches ValidationError::EmptyAllowedVlans { host: h, bridge: br } && h@ == host && br@ == bridge
    } else {
        exists|j: int| #![trigger items[j]] 0 <= j < items.len() && !vlan_item_ok(trim(items[j]))
            && (forall|m: int| 0 <= m < j ==> vlan_item_ok(trim(#[trigger] items[m])))
            && vlan_item_refusal(host, bridge, expr, trim(items[j]), e)
    }
}

/// Rejects VLAN IDs outside 1-4094.
pub fn validate_vlan_id(host_name: &str, bridge_name: &str, vlan: u16) -> (r: Result<(), ValidationError>)
    ensures
        r is Ok <==> vlan_id_ok(vlan),
        r matches Err(e) ==> e matches ValidationError::VlanOutOfRange { host, bridge, vlan: v }
            && host@ == host_name@ && bridge@ == bridge_name@ && v == vlan,
        r matches Err(e) ==> host_network_error(e),
{
    if !(1 <= vlan && vlan <= 4094) {
        return Err(
            ValidationError::VlanOutOfRange {
                host: owned(host_name),
                bridge: owned(bridge_name),
                vlan,
            },
        );
    }
    Ok(())
}

fn check_vlan_item(host_name: &str, bridge_name: &str, expression: &str, piece: &Vec<char>) -> (r:
    Result<(), ValidationError>)
    ensures
        r is Ok <==> vlan_item_ok(trim(piece@)),
        r matches Err(e) ==> !(e is EmptyAllowedVlans),
        r matches Err(e) ==> vlan_item_refusal(host_name@, bridge_name@, expression@, trim(piece@), e),
        r matches Err(e) ==> host_network_error(e),
{
    let t = trim_chars(piece);
    if t.len() == 0 {
        return Err(
            ValidationError::InvalidVlanExpression {
                host: owned(host_name),
                bridge: owned(bridge_name),
                expression: owned(expression),
            },
        );
    }
    let mut k: usize = 0;
    while k < t.len() && t[k] != '-'
        invariant
            k <= t@.len(),
            forall|j: int| 0 <= j < k ==> t@[j] != '-',
        decreases t@.len() - k,
    {
        k = k + 1;
    }
    proof {
        lemma_first_index(t@, '-', k as int);
    }
    if k < t.len() {
        let start_text = slice_chars(&t, 0, k);
        let end_text = slice_chars(&t, k + 1, t.len());
        assert(start_text@ =~= t@.take(k as int));
        assert(end_text@ =~= t@.skip(k + 1));
        let start = match parse_u16_chars(&start_text) {
            Some(v) => v,
            None => {
                return Err(
                    ValidationError::InvalidVlanValue {
                        host: owned(host_name),
                        bridge: owned(bridge_name),
                        item: string_from_chars(&t),
                    },
                );
            },
        };
        let end = match parse_u16_chars(&end_text) {
            Some(v) => v,
            None => {
                return Err(
                    ValidationError::InvalidVlanValue {
                        host: owned(host_name),
                        bridge: owned(bridge_name),
                        item: string_from_chars(&t),
                    },
                );
            },
        };
        validate_vlan_id(host_name, bridge_name, start)?;
        validate_vlan_id(host_name, bridge_name, end)?;
        if start > end {
            return Err(
                ValidationError::DescendingVlanRange {
                    host: owned(host_name),
                    bridge: owned(bridge_name),
                    item: string_from_chars(&t),
                },
            );
        }
        Ok(())
    } else {
        let vlan = match parse_u16_chars(&t) {
            Some(v) => v,
            None => {
                return Err(
                    ValidationError::InvalidVlanValue {
                        host: owned(host_name),
                        bridge: owned(bridge_name),
                        item: string_from_chars(&t),
                    },
                );
            },
        };
        validate_vlan_id(host_name, bridge_name, vlan)
    }
}

/// Checks a bridge's `allowed_vlans` list.
pub fn validate_vlan_expression(host_name: &str, bridge_name: &str, expression: &str) -> (r: Result<
    (),
    ValidationError,
>)
    ensures
        r is Ok <==> vlan_expression_ok(expression@),
        r matches Err(e) ==> (e is EmptyAllowedVlans <==> blank(expression@)),
        r matches Err(e) ==> vlan_expression_refusal(host_name@, bridge_name@, expression@, e),
        r matches Err(e) ==> host_network_error(e),
{
    let chars = chars_of(expression);
    if is_blank_chars(&chars) {
        return Err(
            ValidationError::EmptyAllowedVlans { host: owned(host_name), bridge: owned(bridge_name) },
        );
    }
    let ghost s = chars@;
    let mut current: Vec<char> = Vec::new();
    let mut i: usize = 0;
    proof {
        assert(s.take(0) =~= Seq::<char>::empty());
    }
    while i < chars.len()
        invariant
            s == chars@,
            s == expression@,
            !blank(s),
            i <= s.len(),
            split_on(s.take(i as int), ',').len() >= 1,
            current@ == split_on(s.take(i as int), ',').last(),
            forall|j: int|
                0 <= j < split_on(s.take(i as int), ',').len() - 1 ==> vlan_item_ok(
                    trim(#[trigger] split_on(s.take(i as int), ',')[j]),
                ),
        decreases s.len() - i,
    {
        let c = chars[i];
        let ghost before = split_on(s.take(i as int), ',');
        proof {
            assert(s.take(i + 1).drop_last() =~= s.take(i as int));
            assert(s.take(i + 1).last() == c);
            lemma_split_on_nonempty(s.take(i as int), ',');
        }
        if c == ',' {
            let piece = check_vlan_item(host_name, bridge_name, expression, &current);
            if piece.is_err() {
                proof {
                    let after = split_on(s.take(i + 1), ',');
                    assert(after == before.push(Seq::<char>::empty()));
                    assert(after[before.len() - 1] == before.last());
                    lemma_split_prefix_item(s, (i + 1) as int, (before.len() - 1) as int);
                    let items = split_on(s, ',');
                    let j = before.len() - 1;
                    assert forall|m: int| 0 <= m < j implies vlan_item_ok(trim(#[trigger] items[m])) by {
                        lemma_split_prefix_item(s, (i + 1) as int, m);
                        assert(after[m] == before[m]);
                    }
                    assert(!vlan_item_ok(trim(items[j])));
                }
                return piece;
            }
            current = Vec::new();
            proof {
                let after = split_on(s.take(i + 1), ',');
                assert(after == before.push(Seq::<char>::empty()));
                assert forall|j: int| 0 <= j < after.len() - 1 implies vlan_item_ok(
                    trim(#[trigger] after[j]),
                ) by {
                    if j < before.len() - 1 {
                        assert(after[j] == before[j]);
                    } else {
                        assert(after[j] == before.last());
                    }
                }
                assert(current@ =~= after.last());
            }
        } else {
            current.push(c);
            proof {
                let after = split_on(s.take(i + 1), ',');
                assert(after == before.update(before.len() - 1, before.last().push(c)));
                assert forall|j: int| 0 <= j < after.len() - 1 implies vlan_item_ok(
                    trim(#[trigger] after[j]),
                ) by {
                    assert(after[j] == before[j]);
                }
            }
        }
        i = i + 1;
    }
    proof {
        assert(s.take(s.len() as int) =~= s);
    }
    let last = check_vlan_item(host_name, bridge_name, expression, &current);
    proof {
        let items = split_on(s, ',');
        if last.is_ok() {
            assert forall|j: int| 0 <= j < items.len() implies vlan_item_ok(
                trim(#[trigger] items[j]),
            ) by {
                if j < items.len() - 1 {
                } else {
                }
            }
        } else {
            assert(items[items.len() - 1] == items.last());
        }
    }
    last
}

/// An item of a prefix's split that is followed by a separator is an item of
/// the whole split.
proof fn lemma_split_prefix_item(s: Seq<char>, n: int, j: int)
    requires
        0 <= n <= s.len(),
        0 <= j < split_on(s.take(n), ',').len() - 1,
    ensures
        0 <= j < split_on(s, ',').len(),
        split_on(s, ',')[j] == split_on(s.take(n), ',')[j],
    decreases s.len() - n,
{
    if n < s.len() {
        let a = split_on(s.take(n), ',');
        let b = split_on(s.take(n + 1), ',');
        assert(s.take(n + 1).drop_last() =~= s.take(n));
        lemma_split_on_nonempty(s.take(n), ',');
        assert(b.len() >= a.len());
        assert(b[j] == a[j]);
        lemma_split_prefix_item(s, n + 1, j);
    } else {
        assert(s.take(n) =~= s);
    }
}

} // verus!
