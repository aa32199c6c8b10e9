//! Byte encodings and the SHA-256 digest.
use vstd::prelude::*;
use sha2::Digest;

verus! {

/// Big-endian encoding of `x` in `n` bytes (the low `n` bytes of `x`).
pub open spec fn be_bytes(x: nat, n: nat) -> Seq<u8>
    decreases n,
{
    if n == 0 {
        Seq::empty()
    } else {
        be_bytes(x / 256, (n - 1) as nat).push((x % 256) as u8)
    }
}

/// Append the big-endian encoding of `x` in `n` bytes.
pub fn push_be(out: &mut Vec<u8>, x: u128, n: usize)
    ensures
        final(out)@ == old(out)@ + be_bytes(x as nat, n as nat),
    decreases n,
{
    if n > 0 {
        push_be(out, x / 256, n - 1);
        out.push((x % 256) as u8);
        assert(be_bytes(x as nat, n as nat) == be_bytes((x / 256) as nat, (n - 1) as nat).push((x % 256) as u8));
    } else {
        assert(old(out)@ + be_bytes(x as nat, 0) =~= old(out)@);
    }
}

/// Append a byte slice.
pub fn push_bytes(out: &mut Vec<u8>, b: &[u8])
    ensures
        final(out)@ == old(out)@ + b@,
{
    let mut i: usize = 0;
    while i < b.len()
        invariant
            0 <= i <= b@.len(),
            out@ == old(out)@ + b@.take(i as int),
        decreases b@.len() - i,
    {
        out.push(b[i]);
        assert(b@.take(i + 1) =~= b@.take(i as int).push(b@[i as int]));
        i = i + 1;
    }
    assert(b@.take(b@.len() as int) =~= b@);
}

/// Whether two 32-byte arrays are equal.
pub fn bytes32_eq(a: &[u8; 32], b: &[u8; 32]) -> (r: bool)
    ensures
        r == (a@ == b@),
{
    let mut i: usize = 0;
    while i < 32
        invariant
            0 <= i <= 32,
            a@.len() == 32,
            b@.len() == 32,
            forall|k: int| 0 <= k < i ==> a@[k] == b@[k],
        decreases 32 - i,
    {
        if a[i] != b[i] {
            return false;
        }
        i = i + 1;
    }
    assert(a@ =~= b@);
    true
}

/// Keccak-256 digest of a byte string.
pub uninterp spec fn keccak256_spec(data: Seq<u8>) -> Seq<u8>;

/// Wraps `ethers_core::utils::keccak256`: the result is the Keccak-256 digest
/// of the input, named `keccak256_spec`; nothing else is claimed of it.
#[verifier::external_body]
pub(crate) fn keccak256(data: &[u8]) -> (r: [u8; 32])
    ensures
        r@ == keccak256_spec(data@),
{
    ethers_core::utils::keccak256(data)
}

/// SHA-256 digest of a byte string.
pub uninterp spec fn sha256_spec(data: Seq<u8>) -> Seq<u8>;

/// Wraps `sha2::Sha256::digest`: the result is the SHA-256 digest of the
/// input, named `sha256_spec`; for every input whose length in bits fits
/// in 64 bits (the standard's limit) it is the FIPS 180-4 digest that
/// `crate::sha256::sha256` defines.
#[verifier::external_body]
pub(crate) fn sha256_digest(data: &[u8]) -> (r: [u8; 32])
    ensures
        r@ == sha256_spec(data@),
        data@.len() * 8 <= u64::MAX ==> r@ == crate::sha256::sha256(data@),
{
    sha2::Sha256::digest(data).into()
}

} // verus!
