//! Peer version strings such as `1.3.8`, compared against a required
//! `[major, minor, patch]`.
use crate::number::{digits_value, lemma_digits_step};
use crate::text::{chars_of, char_is_digit, find_from, index_of, is_digit, lemma_index_of_bounds, trim, trimmed_chars};
use vstd::prelude::*;

verus! {

/// Number of leading ASCII digits of `s`.
pub open spec fn leading_digits(s: Seq<char>) -> nat
    decreases s.len(),
{
    if s.len() > 0 && is_digit(s[0]) {
        1 + leading_digits(s.drop_first())
    } else {
        0
    }
}

/// One version component: its leading digits parsed as `u32`; 0 when there
/// are none or when they exceed `u32::MAX`.
pub open spec fn component_value(part: Seq<char>) -> u32 {
    let d = part.take(leading_digits(part) as int);
    if d.len() == 0 || digits_value(d) > u32::MAX {
        0
    } else {
        digits_value(d) as u32
    }
}

/// The `k`-th `.`-separated field of `s`, if there are that many.
pub open spec fn field(s: Seq<char>, k: nat) -> Option<Seq<char>>
    decreases k,
{
    let d = index_of(s, '.');
    if k == 0 {
        Some(if d < 0 { s } else { s.take(d) })
    } else if d < 0 {
        None
    } else {
        field(s.skip(d + 1), (k - 1) as nat)
    }
}

/// Value of the `k`-th component, 0 when it is absent.
pub open spec fn version_component(s: Seq<char>, k: nat) -> u32 {
    match field(s, k) {
        Some(part) => component_value(part),
        None => 0,
    }
}

/// `[a0, a1, a2] >= [b0, b1, b2]` in lexicographic order.
pub open spec fn triple_ge(a0: u32, a1: u32, a2: u32, b0: u32, b1: u32, b2: u32) -> bool {
    a0 > b0 || (a0 == b0 && (a1 > b1 || (a1 == b1 && a2 >= b2)))
}

/// A blank version counts as new enough; otherwise its first three fields
/// are compared with `required`.
pub open spec fn spec_version_at_least(version: Seq<char>, required: Seq<u32>) -> bool {
    trim(version).len() == 0 || triple_ge(
        version_component(version, 0),
        version_component(version, 1),
        version_component(version, 2),
        required[0],
        required[1],
        required[2],
    )
}

/// Versions are ordered field by field: a blank version is always new
/// enough; otherwise a larger major version is enough and a smaller one is
/// not, then the same for the minor version, and with equal major and minor
/// versions the result is exactly whether the patch is at least the
/// required patch.
pub proof fn version_order_is_lexicographic(version: Seq<char>, required: Seq<u32>)
    ensures
        trim(version).len() == 0 ==> spec_version_at_least(version, required),
        trim(version).len() > 0 ==> {
            let (a0, a1, a2) = (
                version_component(version, 0),
                version_component(version, 1),
                version_component(version, 2),
            );
            &&& a0 > required[0] ==> spec_version_at_least(version, required)
            &&& a0 < required[0] ==> !spec_version_at_least(version, required)
            &&& a0 == required[0] && a1 > required[1] ==> spec_version_at_least(version, required)
            &&& a0 == required[0] && a1 < required[1] ==> !spec_version_at_least(version, required)
            &&& a0 == required[0] && a1 == required[1] ==> (spec_version_at_least(version, required)
                <==> a2 >= required[2])
        },
{
}

proof fn lemma_leading_digits(s: Seq<char>, k: int)
    requires
        0 <= k <= s.len(),
        forall|j: int| 0 <= j < k ==> is_digit(s[j]),
        k == s.len() || !is_digit(s[k]),
    ensures
        leading_digits(s) == k,
    decreases k,
{
    if k > 0 {
        assert forall|j: int| 0 <= j < k - 1 implies is_digit(s.drop_first()[j]) by {
            assert(s.drop_first()[j] == s[j + 1]);
        }
        if k < s.len() {
            assert(s.drop_first()[k - 1] == s[k]);
        }
        lemma_leading_digits(s.drop_first(), k - 1);
    }
}

/// Parses the version component in `v[start..end]`.
fn parse_component(v: &Vec<char>, start: usize, end: usize) -> (r: u32)
    requires
        start <= end <= v@.len(),
    ensures
        r == component_value(v@.subrange(start as int, end as int)),
{
    let ghost part = v@.subrange(start as int, end as int);
    let mut k = start;
    while k < end && char_is_digit(v[k])
        invariant
            start <= k <= end <= v@.len(),
            forall|j: int| start <= j < k ==> is_digit(v@[j]),
        decreases end - k,
    {
        k = k + 1;
    }
    proof {
        assert forall|j: int| 0 <= j < k - start implies is_digit(part[j]) by {
            assert(part[j] == v@[start + j]);
        }
        if k < end {
            assert(part[k - start] == v@[k as int]);
        }
        lemma_leading_digits(part, k - start);
    }
    let ghost d = part.take(k - start);
    if k == start {
        return 0;
    }
    let mut acc: u64 = 0;
    let mut overflow = false;
    let mut i = start;
    assert(d.take(0) =~= Seq::<char>::empty());
    while i < k
        invariant
            start <= i <= k <= end <= v@.len(),
            d == part.take(k - start),
            part == v@.subrange(start as int, end as int),
            forall|j: int| start <= j < k ==> is_digit(v@[j]),
            !overflow ==> acc == digits_value(d.take(i - start)) && acc <= u32::MAX,
            overflow ==> digits_value(d.take(i - start)) > u32::MAX,
        decreases k - i,
    {
        proof {
            lemma_digits_step(d, i - start);
            assert(d[i - start] == v@[i as int]);
        }
        let digit = (v[i] as u32) - ('0' as u32);
        if !overflow {
            let next = acc * 10 + digit as u64;
            if next > 0xFFFF_FFFF {
                overflow = true;
            } else {
                acc = next;
            }
        }
        i = i + 1;
    }
    assert(d.take(k - start) =~= d);
    if overflow {
        0
    } else {
        acc as u32
    }
}

/// Whether `version` is at least `required`. A blank version is treated as
/// current; each of the first three `.`-separated fields contributes the
/// value of its leading digits (0 when there are none or they overflow).
pub fn version_at_least(version: &str, required: [u32; 3]) -> (r: bool)
    ensures
        r == spec_version_at_least(version@, required@),
{
    let t = trimmed_chars(version);
    if t.len() == 0 {
        return true;
    }
    let v = chars_of(version);
    let n = v.len();
    let ghost s = v@;
    assert(s.subrange(0, n as int) =~= s);
    let mut parsed: [u32; 3] = [0, 0, 0];
    let d0 = find_from(&v, 0, '.');
    proof {
        lemma_index_of_bounds(s, '.');
    }
    match d0 {
        None => {
            parsed[0] = parse_component(&v, 0, n);
            assert(field(s, 0) == Some(s));
            assert(field(s, 1) == None::<Seq<char>>);
            assert(field(s, 2) == None::<Seq<char>>);
        },
        Some(e0) => {
            parsed[0] = parse_component(&v, 0, e0);
            assert(s.take(e0 as int) =~= s.subrange(0, e0 as int));
            assert(field(s, 0) == Some(s.take(e0 as int)));
            let ghost s1 = s.skip(e0 + 1);
            assert(s1 =~= s.subrange(e0 + 1, n as int));
            let d1 = find_from(&v, e0 + 1, '.');
            match d1 {
                None => {
                    parsed[1] = parse_component(&v, e0 + 1, n);
                    assert(field(s, 1) == field(s1, 0));
                    assert(field(s1, 0) == Some(s1));
                    assert(field(s1, 1) == None::<Seq<char>>);
                    assert(field(s, 2) == field(s1, 1));
                },
                Some(e1) => {
                    parsed[1] = parse_component(&v, e0 + 1, e1);
                    assert(s1.take(e1 - (e0 + 1)) =~= s.subrange(e0 + 1, e1 as int));
                    assert(field(s, 1) == field(s1, 0));
                    let ghost s2 = s1.skip(e1 - (e0 + 1) + 1);
                    assert(s2 =~= s.subrange(e1 + 1, n as int));
                    assert(field(s, 2) == field(s1, 1));
                    assert(field(s1, 1) == field(s2, 0));
                    let d2 = find_from(&v, e1 + 1, '.');
                    match d2 {
                        None => {
                            parsed[2] = parse_component(&v, e1 + 1, n);
                        },
                        Some(e2) => {
                            parsed[2] = parse_component(&v, e1 + 1, e2);
                            assert(s2.take(e2 - (e1 + 1)) =~= s.subrange(e1 + 1, e2 as int));
                        },
                    }
                },
            }
        },
    }
    parsed[0] > required[0] || (parsed[0] == required[0] && (parsed[1] > required[1] || (parsed[1]
        == required[1] && parsed[2] >= required[2])))
}

} // verus!
