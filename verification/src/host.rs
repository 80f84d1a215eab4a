//! The calls the contracts make into the Soroban host through `soroban_sdk`:
//! SHA-256 hashing and the XDR encoding of a string. Everything else the
//! contracts compute is verified code built on these.

use vstd::prelude::*;
use soroban_sdk::xdr::ToXdr;

verus! {

/// The Soroban host environment, carried through to the calls below.
#[verifier::external_type_specification]
#[verifier::external_body]
pub struct ExEnv(soroban_sdk::Env);

/// The SHA-256 digest of `data`.
pub uninterp spec fn sha256_digest(data: Seq<u8>) -> Seq<u8>;

/// Big-endian bytes of `x`.
pub open spec fn be_bytes_u32(x: u32) -> Seq<u8> {
    seq![(x >> 24u32) as u8, (x >> 16u32) as u8, (x >> 8u32) as u8, x as u8]
}

/// Number of zero bytes that pad `n` bytes to a multiple of four.
pub open spec fn xdr_padding(n: nat) -> nat {
    ((4 - n % 4) % 4) as nat
}

/// The XDR encoding of a string value (`ScVal::String`) holding `bytes`:
/// the type tag 14 and the length, each as four big-endian bytes, then the
/// bytes, then zero padding to a multiple of four.
pub open spec fn string_xdr(bytes: Seq<u8>) -> Seq<u8> {
    seq![0u8, 0u8, 0u8, 14u8] + be_bytes_u32(bytes.len() as u32) + bytes
        + Seq::new(xdr_padding(bytes.len()), |i: int| 0u8)
}

/// Calls `soroban_sdk::crypto::Crypto::sha256` on the bytes of `data`.
/// Trusted to return the 32-byte SHA-256 digest of `data`, a function of
/// `data` alone. Not stated: the host charges the call to its budget and
/// fails once the budget is spent, which depends on the host's state.
#[verifier::external_body]
pub(crate) fn sha256(env: &soroban_sdk::Env, data: &[u8]) -> (r: [u8; 32])
    ensures
        r@ == sha256_digest(data@),
{
    env.crypto().sha256(&soroban_sdk::Bytes::from_slice(env, data)).to_array()
}

/// Calls `soroban_sdk::String::from_bytes` and then
/// `soroban_sdk::xdr::ToXdr::to_xdr` on the host string holding `bytes`.
/// Trusted to return the XDR encoding of that string value, as
/// `string_xdr` spells it out. Not stated: the budget failure, as for
/// `sha256`.
#[verifier::external_body]
pub(crate) fn string_to_xdr(env: &soroban_sdk::Env, bytes: &[u8]) -> (r: Vec<u8>)
    requires
        bytes@.len() <= u32::MAX,
    ensures
        r@ == string_xdr(bytes@),
{
    soroban_sdk::String::from_bytes(env, bytes).to_xdr(env).iter().collect()
}

/// `a` followed by `b`.
pub fn concat_bytes(a: &[u8], b: &[u8]) -> (r: Vec<u8>)
    ensures
        r@ == a@ + b@,
{
    let mut out: Vec<u8> = Vec::new();
    let mut i: usize = 0;
    while i < a.len()
        invariant
            0 <= i <= a@.len(),
            out@ == a@.subrange(0, i as int),
        decreases a@.len() - i,
    {
        out.push(a[i]);
        i = i + 1;
        assert(out@ =~= a@.subrange(0, i as int));
    }
    let mut j: usize = 0;
    while j < b.len()
        invariant
            0 <= j <= b@.len(),
            out@ == a@ + b@.subrange(0, j as int),
        decreases b@.len() - j,
    {
        out.push(b[j]);
        j = j + 1;
        assert(out@ =~= a@ + b@.subrange(0, j as int));
    }
    assert(b@.subrange(0, b@.len() as int) =~= b@);
    out
}

/// Whether two 32-byte digests are equal.
pub fn digests_equal(a: &[u8; 32], b: &[u8; 32]) -> (r: bool)
    ensures
        r == (a@ == b@),
{
    let mut i: usize = 0;
    while i < 32
        invariant
            0 <= i <= 32,
            a@.len() == 32,
            b@.len() == 32,
            forall|j: int| 0 <= j < i ==> a@[j] == b@[j],
        decreases 32 - i,
    {
        if a[i] != b[i] {
            assert(a@[i as int] != b@[i as int]);
            return false;
        }
        i = i + 1;
    }
    assert(a@ =~= b@);
    true
}

} // verus!
