//! The little-endian byte layouts that messages and tags are made of.

use vstd::prelude::*;

verus! {

/// The four bytes of `v`, least significant first.
pub open spec fn le_bytes_u32(v: u32) -> Seq<u8> {
    seq![
        (v % 256) as u8,
        ((v / 256) % 256) as u8,
        ((v / 65536) % 256) as u8,
        (v / 16777216) as u8,
    ]
}

/// The number whose least significant byte is `b[0]`, over four bytes.
pub open spec fn le_value_u32(b: Seq<u8>) -> int
    recommends
        b.len() >= 4,
{
    b[0] + 256 * b[1] + 65536 * b[2] + 16777216 * b[3]
}

/// The number that `bytes` spell in base 256, least significant byte first.
pub open spec fn le_value(bytes: Seq<u8>) -> nat
    decreases bytes.len(),
{
    if bytes.len() == 0 {
        0
    } else {
        (bytes[0] + 256 * le_value(bytes.skip(1))) as nat
    }
}

/// Calls `parity_scale_codec::Encode::encode` on a `u32`, which writes the
/// result of `to_le_bytes`: four bytes, least significant first.
#[verifier::external_body]
pub(crate) fn scale_encode_u32(v: u32) -> (out: Vec<u8>)
    ensures
        out@ == le_bytes_u32(v),
{
    parity_scale_codec::Encode::encode(&v)
}

/// Calls `parity_scale_codec::Decode::decode` for `u32` on a byte slice. It
/// fails when fewer than four bytes are there, and otherwise reads the first
/// four with `from_le_bytes`.
#[verifier::external_body]
pub(crate) fn scale_decode_u32(bytes: &[u8]) -> (value: Option<u32>)
    ensures
        bytes@.len() < 4 ==> value is None,
        bytes@.len() >= 4 ==> value == Some(le_value_u32(bytes@) as u32),
{
    let mut input: &[u8] = bytes;
    <u32 as parity_scale_codec::Decode>::decode(&mut input).ok()
}

/// The four bytes of a number spell that number again.
pub proof fn lemma_u32_round_trip(v: u32)
    ensures
        le_bytes_u32(v).len() == 4,
        le_value_u32(le_bytes_u32(v)) == v,
        le_value(le_bytes_u32(v)) == v,
{
    lemma_le_value_of_four(le_bytes_u32(v));
}

/// Over exactly four bytes the two readings agree.
pub proof fn lemma_le_value_of_four(b: Seq<u8>)
    requires
        b.len() == 4,
    ensures
        le_value(b) == le_value_u32(b),
{
    reveal_with_fuel(le_value, 5);
    let b1 = b.skip(1);
    let b2 = b1.skip(1);
    let b3 = b2.skip(1);
    assert(b3.skip(1).len() == 0);
    assert(b1[0] == b[1] && b2[0] == b[2] && b3[0] == b[3]);
}

/// A copy of `bytes`.
pub fn copy_bytes(bytes: &Vec<u8>) -> (out: Vec<u8>)
    ensures
        out@ == bytes@,
{
    let mut out: Vec<u8> = Vec::new();
    let mut i: usize = 0;
    while i < bytes.len()
        invariant
            i <= bytes.len(),
            out@ == bytes@.take(i as int),
        decreases bytes.len() - i,
    {
        out.push(bytes[i]);
        proof {
            assert(bytes@.take(i + 1) =~= bytes@.take(i as int).push(bytes@[i as int]));
        }
        i += 1;
    }
    proof {
        assert(bytes@.take(bytes@.len() as int) =~= bytes@);
    }
    out
}

/// Whether two byte strings are the same.
pub fn same_bytes(a: &Vec<u8>, b: &Vec<u8>) -> (same: bool)
    ensures
        same == (a@ == b@),
{
    if a.len() != b.len() {
        return false;
    }
    let mut i: usize = 0;
    while i < a.len()
        invariant
            i <= a.len(),
            a.len() == b.len(),
            a@.take(i as int) == b@.take(i as int),
        decreases a.len() - i,
    {
        if a[i] != b[i] {
            return false;
        }
        proof {
            assert(a@.take(i + 1) =~= a@.take(i as int).push(a@[i as int]));
            assert(b@.take(i + 1) =~= b@.take(i as int).push(b@[i as int]));
        }
        i += 1;
    }
    proof {
        assert(a@.take(a@.len() as int) =~= a@);
        assert(b@.take(b@.len() as int) =~= b@);
    }
    true
}

/// Dropping low-order bytes never makes the number larger.
pub proof fn lemma_le_value_skip(bytes: Seq<u8>, k: int)
    requires
        0 <= k <= bytes.len(),
    ensures
        le_value(bytes.skip(k)) <= le_value(bytes),
    decreases k,
{
    if k == 0 {
        assert(bytes.skip(0) =~= bytes);
    } else {
        lemma_le_value_skip(bytes, k - 1);
        let s = bytes.skip(k - 1);
        assert(s.skip(1) =~= bytes.skip(k));
    }
}

/// Reads `slice` as an unsigned number in base 256, least significant byte
/// first. `None` exactly when the number does not fit in 128 bits.
pub fn to_u128(slice: &[u8]) -> (value: Option<u128>)
    ensures
        le_value(slice@) <= u128::MAX ==> value == Some(le_value(slice@) as u128),
        le_value(slice@) > u128::MAX ==> value is None,
{
    let mut acc: u128 = 0;
    let mut i: usize = slice.len();
    proof {
        assert(slice@.skip(slice@.len() as int).len() == 0);
    }
    while i > 0
        invariant
            i <= slice.len(),
            acc == le_value(slice@.skip(i as int)),
        decreases i,
    {
        i = i - 1;
        let b: u8 = slice[i];
        proof {
            let s = slice@.skip(i as int);
            assert(s.skip(1) =~= slice@.skip(i + 1));
            assert(s[0] == b);
            lemma_le_value_skip(slice@, i as int);
        }
        let shifted = match acc.checked_mul(256) {
            Some(x) => x,
            None => {
                return None;
            },
        };
        acc = match shifted.checked_add(b as u128) {
            Some(x) => x,
            None => {
                return None;
            },
        };
    }
    proof {
        assert(slice@.skip(0) =~= slice@);
    }
    Some(acc)
}

} // verus!
