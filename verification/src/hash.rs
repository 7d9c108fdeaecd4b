//! Content addresses: BLAKE3 digests written in lowercase hex.

use vstd::prelude::*;

use crate::text::push_char;

verus! {

/// The BLAKE3 digest of `data`.
pub uninterp spec fn blake3_digest(data: Seq<u8>) -> Seq<u8>;

/// Calls `blake3::hash`. Trusted: the result is the crate's digest of `data`,
/// and a digest is 32 bytes long (`blake3::OUT_LEN`).
#[verifier::external_body]
fn blake3_hash(data: &[u8]) -> (r: Vec<u8>)
    ensures
        r@ == blake3_digest(data@),
        r@.len() == 32,
{
    blake3::hash(data).as_bytes().to_vec()
}

/// The lowercase hex digit of `d` (`0 <= d < 16`).
pub open spec fn hex_digit(d: int) -> char {
    if d < 10 {
        (48 + d) as char
    } else {
        (87 + d) as char
    }
}

/// `bytes` in lowercase hex, two digits per byte, high nibble first.
pub open spec fn hex(bytes: Seq<u8>) -> Seq<char>
    decreases bytes.len(),
{
    if bytes.len() == 0 {
        Seq::empty()
    } else {
        hex(bytes.drop_last()) + seq![
            hex_digit(bytes.last() as int / 16),
            hex_digit(bytes.last() as int % 16),
        ]
    }
}

/// The short content address of `data`: the first 16 hex digits of its
/// BLAKE3 digest (its first 8 bytes).
pub open spec fn short_id(data: Seq<u8>) -> Seq<char> {
    hex(blake3_digest(data).subrange(0, 8))
}

fn hex_char(d: u8) -> (c: char)
    requires
        d < 16,
    ensures
        c == hex_digit(d as int),
{
    if d < 10 {
        (48u8 + d) as char
    } else {
        (87u8 + d) as char
    }
}

/// The first 16 hex digits of the BLAKE3 digest of `data`.
pub fn short_hash_hex(data: &[u8]) -> (r: String)
    ensures
        r@ == short_id(data@),
        r@.len() == 16,
{
    let d = blake3_hash(data);
    let mut r = String::new();
    let mut i: usize = 0;
    while i < 8
        invariant
            d@ == blake3_digest(data@),
            d@.len() == 32,
            i <= 8,
            r@ == hex(d@.subrange(0, i as int)),
            r@.len() == 2 * i,
        decreases 8 - i,
    {
        let b = d[i];
        push_char(&mut r, hex_char(b / 16));
        push_char(&mut r, hex_char(b % 16));
        assert(d@.subrange(0, i + 1).drop_last() =~= d@.subrange(0, i as int));
        assert(r@ =~= hex(d@.subrange(0, i + 1)));
        i = i + 1;
    }
    r
}

} // verus!
