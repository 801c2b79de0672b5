//! Binary (de)serialization of the plain values kept in the key-value store.
//!
//! Integers and flags are encoded with borsh: an unsigned integer is its
//! fixed number of little-endian bytes, a flag is a single `0` or `1` byte,
//! and decoding rejects both malformed and left-over bytes. The functions
//! that call borsh are trusted; everything composed from them is verified
//! against the same byte-level specifications, so that round trips and the
//! exact shape of a corrupt value are provable.

use vstd::prelude::*;

verus! {

/// `256 ^ len`.
pub open spec fn pow256(len: nat) -> nat
    decreases len,
{
    if len == 0 {
        1
    } else {
        256 * pow256((len - 1) as nat)
    }
}

/// The `len` little-endian base-256 digits of `n`.
pub open spec fn le_bytes(n: nat, len: nat) -> Seq<u8>
    decreases len,
{
    if len == 0 {
        Seq::empty()
    } else {
        seq![(n % 256) as u8] + le_bytes(n / 256, (len - 1) as nat)
    }
}

/// The value of a little-endian base-256 digit string.
pub open spec fn le_val(s: Seq<u8>) -> nat
    decreases s.len(),
{
    if s.len() == 0 {
        0
    } else {
        (s[0] + 256 * le_val(s.drop_first())) as nat
    }
}

/// `le_bytes` produces exactly `len` bytes.
pub proof fn lemma_le_bytes_len(n: nat, len: nat)
    ensures
        le_bytes(n, len).len() == len,
    decreases len,
{
    if len > 0 {
        lemma_le_bytes_len(n / 256, (len - 1) as nat);
    }
}

/// Reading back the little-endian digits of `n` recovers `n`, provided `n`
/// fits in `len` bytes.
pub proof fn lemma_le_val_of_le_bytes(n: nat, len: nat)
    requires
        n < pow256(len),
    ensures
        le_val(le_bytes(n, len)) == n,
    decreases len,
{
    if len > 0 {
        lemma_le_bytes_len(n / 256, (len - 1) as nat);
        assert(n / 256 < pow256((len - 1) as nat)) by {
            assert(pow256(len) == 256 * pow256((len - 1) as nat));
        };
        lemma_le_val_of_le_bytes(n / 256, (len - 1) as nat);
        assert(le_bytes(n, len).drop_first() =~= le_bytes(n / 256, (len - 1) as nat));
    }
}

/// The value of a digit string fits in as many bytes as it has.
pub proof fn lemma_le_val_bound(s: Seq<u8>)
    ensures
        le_val(s) < pow256(s.len() as nat),
    decreases s.len(),
{
    if s.len() > 0 {
        lemma_le_val_bound(s.drop_first());
    }
}

/// `256 ^ 8` and `256 ^ 16`, spelled out for the integer widths in use.
pub proof fn lemma_pow256_values()
    ensures
        pow256(8) == 0x1_0000_0000_0000_0000,
        pow256(16) == 0x1_0000_0000_0000_0000_0000_0000_0000_0000,
{
    assert(pow256(0) == 1);
    assert(pow256(1) == 256);
    assert(pow256(2) == 0x1_0000);
    assert(pow256(3) == 0x100_0000);
    assert(pow256(4) == 0x1_0000_0000);
    assert(pow256(5) == 0x100_0000_0000);
    assert(pow256(6) == 0x1_0000_0000_0000);
    assert(pow256(7) == 0x100_0000_0000_0000);
    assert(pow256(8) == 0x1_0000_0000_0000_0000);
    assert(pow256(9) == 0x100_0000_0000_0000_0000);
    assert(pow256(10) == 0x1_0000_0000_0000_0000_0000);
    assert(pow256(11) == 0x100_0000_0000_0000_0000_0000);
    assert(pow256(12) == 0x1_0000_0000_0000_0000_0000_0000);
    assert(pow256(13) == 0x100_0000_0000_0000_0000_0000_0000);
    assert(pow256(14) == 0x1_0000_0000_0000_0000_0000_0000_0000);
    assert(pow256(15) == 0x100_0000_0000_0000_0000_0000_0000_0000);
    assert(pow256(16) == 0x1_0000_0000_0000_0000_0000_0000_0000_0000);
}

/// The stored form of a `u64`: its eight little-endian bytes.
pub open spec fn enc_u64(x: u64) -> Seq<u8> {
    le_bytes(x as nat, 8)
}

/// Decoding a stored `u64`: exactly eight bytes, read little-endian.
pub open spec fn dec_u64(s: Seq<u8>) -> Option<u64> {
    if s.len() == 8 {
        Some(le_val(s) as u64)
    } else {
        None
    }
}

/// The stored form of a `u128`: its sixteen little-endian bytes.
pub open spec fn enc_u128(x: u128) -> Seq<u8> {
    le_bytes(x as nat, 16)
}

/// Decoding a stored `u128`: exactly sixteen bytes, read little-endian.
pub open spec fn dec_u128(s: Seq<u8>) -> Option<u128> {
    if s.len() == 16 {
        Some(le_val(s) as u128)
    } else {
        None
    }
}

/// The stored form of a flag: one `0` or `1` byte.
pub open spec fn enc_bool(b: bool) -> Seq<u8> {
    if b {
        seq![1u8]
    } else {
        seq![0u8]
    }
}

/// Decoding a stored flag: any other byte string is rejected.
pub open spec fn dec_bool(s: Seq<u8>) -> Option<bool> {
    if s =~= seq![1u8] {
        Some(true)
    } else if s =~= seq![0u8] {
        Some(false)
    } else {
        None
    }
}

/// A `u64` decodes to what was encoded.
pub proof fn lemma_u64_round_trip(x: u64)
    ensures
        dec_u64(enc_u64(x)) == Some(x),
{
    lemma_le_bytes_len(x as nat, 8);
    lemma_pow256_values();
    lemma_le_val_of_le_bytes(x as nat, 8);
}

/// A `u128` decodes to what was encoded.
pub proof fn lemma_u128_round_trip(x: u128)
    ensures
        dec_u128(enc_u128(x)) == Some(x),
{
    lemma_le_bytes_len(x as nat, 16);
    lemma_pow256_values();
    lemma_le_val_of_le_bytes(x as nat, 16);
}

/// Relies on `borsh::to_vec` for `u64`: borsh serializes an unsigned 64-bit
/// integer as its eight little-endian bytes, and writing to a `Vec` cannot
/// fail.
#[verifier::external_body]
pub fn borsh_encode_u64(x: u64) -> (r: Vec<u8>)
    ensures
        r@ == enc_u64(x),
{
    borsh::to_vec(&x).expect("writing to a Vec cannot fail")
}

/// Relies on `borsh::from_slice` for `u64`: it reads exactly eight
/// little-endian bytes and rejects missing or left-over bytes.
#[verifier::external_body]
pub fn borsh_decode_u64(b: &Vec<u8>) -> (r: Option<u64>)
    ensures
        r == dec_u64(b@),
{
    borsh::from_slice::<u64>(b.as_slice()).ok()
}

/// Relies on `borsh::to_vec` for `u128`: sixteen little-endian bytes, and
/// writing to a `Vec` cannot fail.
#[verifier::external_body]
pub fn borsh_encode_u128(x: u128) -> (r: Vec<u8>)
    ensures
        r@ == enc_u128(x),
{
    borsh::to_vec(&x).expect("writing to a Vec cannot fail")
}

/// Relies on `borsh::from_slice` for `u128`: it reads exactly sixteen
/// little-endian bytes and rejects missing or left-over bytes.
#[verifier::external_body]
pub fn borsh_decode_u128(b: &Vec<u8>) -> (r: Option<u128>)
    ensures
        r == dec_u128(b@),
{
    borsh::from_slice::<u128>(b.as_slice()).ok()
}

/// Relies on `borsh::to_vec` for `bool`: a single `1` or `0` byte, and
/// writing to a `Vec` cannot fail.
#[verifier::external_body]
pub fn borsh_encode_bool(x: bool) -> (r: Vec<u8>)
    ensures
        r@ == enc_bool(x),
{
    borsh::to_vec(&x).expect("writing to a Vec cannot fail")
}

/// Relies on `borsh::from_slice` for `bool`: it accepts exactly one byte
/// equal to `0` or `1` and rejects anything else.
#[verifier::external_body]
pub fn borsh_decode_bool(b: &Vec<u8>) -> (r: Option<bool>)
    ensures
        r == dec_bool(b@),
{
    borsh::from_slice::<bool>(b.as_slice()).ok()
}

/// Copies the byte range `[start, end)` out of a vector.
pub fn bytes_range(v: &Vec<u8>, start: usize, end: usize) -> (r: Vec<u8>)
    requires
        start <= end <= v@.len(),
    ensures
        r@ == v@.subrange(start as int, end as int),
{
    let mut r: Vec<u8> = Vec::new();
    let mut i: usize = start;
    while i < end
        invariant
            start <= i <= end <= v@.len(),
            r@ == v@.subrange(start as int, i as int),
        decreases end - i,
    {
        r.push(v[i]);
        proof {
            assert(v@.subrange(start as int, i + 1 as int) =~= v@.subrange(
                start as int,
                i as int,
            ).push(v@[i as int]));
        }
        i += 1;
    }
    r
}

} // verus!
