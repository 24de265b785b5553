//! Decimal numbers in text: reading them (as `str::parse` does for unsigned
//! integers) and writing them (as `Display` does).
use crate::text::{is_digit, push_chars};
use vstd::prelude::*;

verus! {

/// Decimal value of a string of digits.
pub open spec fn digits_value(s: Seq<char>) -> nat
    decreases s.len(),
{
    if s.len() == 0 {
        0
    } else {
        digits_value(s.drop_last()) * 10 + ((s.last() as u32) - ('0' as u32)) as nat
    }
}

pub open spec fn all_digits(s: Seq<char>) -> bool {
    forall|i: int| 0 <= i < s.len() ==> is_digit(s[i])
}

/// `str::parse::<u16>`: an optional `+`, then one or more ASCII digits whose
/// value fits in 16 bits.
pub open spec fn spec_parse_u16(s: Seq<char>) -> Option<u16> {
    let body = if s.len() > 0 && s[0] == '+' {
        s.drop_first()
    } else {
        s
    };
    if body.len() > 0 && all_digits(body) && digits_value(body) <= 65535 {
        Some(digits_value(body) as u16)
    } else {
        None
    }
}

pub proof fn lemma_digits_step(s: Seq<char>, i: int)
    requires
        0 <= i < s.len(),
    ensures
        digits_value(s.take(i + 1)) == digits_value(s.take(i)) * 10 + ((s[i] as u32) - (
        '0' as u32)) as nat,
{
    assert(s.take(i + 1).drop_last() =~= s.take(i));
}

/// Value of the digits `v[start..end]` when they are all digits and the value
/// is at most `limit`.
pub fn digits_up_to(v: &Vec<char>, start: usize, end: usize, limit: u64) -> (r: Option<u64>)
    requires
        start <= end <= v@.len(),
        limit <= u32::MAX,
    ensures
        ({
            let d = v@.subrange(start as int, end as int);
            match r {
                Some(x) => all_digits(d) && x == digits_value(d) && x <= limit,
                None => !all_digits(d) || digits_value(d) > limit,
            }
        }),
{
    let ghost d = v@.subrange(start as int, end as int);
    let mut acc: u64 = 0;
    let mut over = false;
    let mut i = start;
    assert(d.take(0) =~= Seq::<char>::empty());
    while i < end
        invariant
            start <= i <= end <= v@.len(),
            limit <= u32::MAX,
            d == v@.subrange(start as int, end as int),
            forall|j: int| start <= j < i ==> is_digit(v@[j]),
            !over ==> acc == digits_value(d.take(i - start)) && acc <= limit,
            over ==> digits_value(d.take(i - start)) > limit,
        decreases end - i,
    {
        let c = v[i];
        if !('0' <= c && c <= '9') {
            assert(d[i - start] == c);
            return None;
        }
        proof {
            lemma_digits_step(d, i - start);
            assert(d[i - start] == c);
        }
        let digit = (c as u32) - ('0' as u32);
        if !over {
            let next = acc * 10 + digit as u64;
            if next > limit {
                over = true;
            } else {
                acc = next;
            }
        }
        i = i + 1;
    }
    assert(d.take(end - start) =~= d);
    assert(all_digits(d)) by {
        assert forall|j: int| 0 <= j < d.len() implies is_digit(d[j]) by {
            assert(d[j] == v@[start + j]);
        }
    }
    if over {
        None
    } else {
        Some(acc)
    }
}

/// `str::parse::<u16>` of the characters `v[start..end]`.
pub fn parse_u16(v: &Vec<char>, start: usize, end: usize) -> (r: Option<u16>)
    requires
        start <= end <= v@.len(),
    ensures
        r == spec_parse_u16(v@.subrange(start as int, end as int)),
{
    let ghost s = v@.subrange(start as int, end as int);
    let body_start = if start < end && v[start] == '+' {
        start + 1
    } else {
        start
    };
    proof {
        if start < end && v@[start as int] == '+' {
            assert(s.drop_first() =~= v@.subrange(start + 1, end as int));
        } else {
            assert(s =~= v@.subrange(body_start as int, end as int));
        }
    }
    if body_start == end {
        return None;
    }
    match digits_up_to(v, body_start, end, 65535) {
        Some(x) => Some(x as u16),
        None => None,
    }
}

/// `c` is the ASCII digit for `d`.
pub open spec fn digit_char(d: nat) -> char {
    ((d + 48) as u32) as char
}

/// Decimal text of a natural number, without leading zeros.
pub open spec fn decimal(n: nat) -> Seq<char>
    decreases n,
{
    if n < 10 {
        seq![digit_char(n)]
    } else {
        decimal(n / 10).push(digit_char(n % 10))
    }
}

/// Decimal text of an integer, with `-` before a negative one.
pub open spec fn signed_decimal(n: int) -> Seq<char> {
    if n < 0 {
        seq!['-'] + decimal((-n) as nat)
    } else {
        decimal(n as nat)
    }
}

fn digit_of(d: u64) -> (c: char)
    requires
        d < 10,
    ensures
        c == digit_char(d as nat),
{
    let b = (48 + d) as u8;
    b as char
}

/// Decimal text of `n`, as `Display` writes it.
pub fn decimal_chars(n: u64) -> (v: Vec<char>)
    ensures
        v@ == decimal(n as nat),
{
    let mut rest = n;
    let mut suffix: Vec<char> = Vec::new();
    loop
        invariant_except_break
            decimal(n as nat) == decimal(rest as nat) + suffix@,
        ensures
            decimal(n as nat) == suffix@,
        decreases rest,
    {
        if rest < 10 {
            let c = digit_of(rest);
            suffix.insert(0, c);
            assert(decimal(n as nat) =~= suffix@);
            break ;
        }
        let c = digit_of(rest % 10);
        suffix.insert(0, c);
        let ghost old_rest = rest;
        rest = rest / 10;
        assert(decimal(old_rest as nat) == decimal(rest as nat).push(c));
        assert(decimal(n as nat) =~= decimal(rest as nat) + suffix@);
    }
    suffix
}

/// Appends the decimal text of `n` (with a leading `-` if negative).
pub fn push_decimal(s: &mut String, n: i64)
    ensures
        final(s)@ == old(s)@ + signed_decimal(n as int),
{
    if n < 0 {
        crate::text::push_char(s, '-');
        let magnitude: u64 = if n == i64::MIN {
            9223372036854775808u64
        } else {
            (-n) as u64
        };
        let v = decimal_chars(magnitude);
        push_chars(s, &v);
        assert(s@ =~= old(s)@ + signed_decimal(n as int)) by {
            assert(magnitude as nat == (-n) as nat);
        }
    } else {
        let v = decimal_chars(n as u64);
        push_chars(s, &v);
    }
}

} // verus!
