//! Digests and the hex form in which they are shown.
use crate::text::push_char;
use base64::Engine;
use sha2::Digest;
use vstd::prelude::*;

verus! {

/// The SHA-256 digest of `data`.
pub uninterp spec fn sha256(data: Seq<u8>) -> Seq<u8>;

/// `sha2::Sha256::digest`: the SHA-256 digest of `data`, which is always 32
/// bytes long. Nothing else is claimed of the digest.
#[verifier::external_body]
pub(crate) fn sha256_digest(data: &[u8]) -> (r: Vec<u8>)
    ensures
        r@ == sha256(data@),
        r@.len() == 32,
{
    sha2::Sha256::digest(data).to_vec()
}

/// The lowercase hex digit of `n` (below 16).
pub open spec fn hex_digit(n: int) -> char {
    if n < 10 {
        ('0' as int + n) as char
    } else {
        ('a' as int + n - 10) as char
    }
}

/// Each byte as two lowercase hex digits, as `format!("{:02x}")` writes it.
pub open spec fn hex_lower(b: Seq<u8>) -> Seq<char> {
    Seq::new(
        2 * b.len(),
        |i: int|
            if i % 2 == 0 {
                hex_digit((b[i / 2] / 16) as int)
            } else {
                hex_digit((b[i / 2] % 16) as int)
            },
    )
}

fn hex_char(n: u8) -> (c: char)
    requires
        n < 16,
    ensures
        c == hex_digit(n as int),
{
    if n < 10 {
        (48u8 + n) as char
    } else {
        (87u8 + n) as char
    }
}

/// The lowercase hex form of `bytes[0..count]`.
pub fn hex_prefix(bytes: &Vec<u8>, count: usize) -> (r: String)
    requires
        count <= bytes@.len(),
    ensures
        r@ == hex_lower(bytes@.subrange(0, count as int)),
{
    let mut r = String::new();
    let mut i: usize = 0;
    while i < count
        invariant
            count <= bytes@.len(),
            i <= count,
            r@ == hex_lower(bytes@.subrange(0, i as int)),
        decreases count - i,
    {
        let b = bytes[i];
        push_char(&mut r, hex_char(b / 16));
        push_char(&mut r, hex_char(b % 16));
        i = i + 1;
        assert(r@ =~= hex_lower(bytes@.subrange(0, i as int)));
    }
    r
}


/// What standard base64 (padded, `+` and `/`) decodes `text` to, if it is
/// valid base64.
pub uninterp spec fn base64_decode(text: Seq<char>) -> Option<Seq<u8>>;

/// `base64::engine::general_purpose::STANDARD.decode`: the decoded bytes, or
/// `None` where the crate reports a decode error. Which texts decode, and to
/// what, is left to the name `base64_decode`.
#[verifier::external_body]
pub(crate) fn base64_standard_decode(text: &str) -> (r: Option<Vec<u8>>)
    ensures
        match r {
            Some(v) => base64_decode(text@) == Some(v@),
            None => base64_decode(text@) is None,
        },
{
    base64::engine::general_purpose::STANDARD.decode(text).ok()
}

} // verus!
