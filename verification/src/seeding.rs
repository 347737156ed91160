use vstd::prelude::*;
use blake2::Blake2b512;
use blake2::Digest;

verus! {

/// The `k` little-endian bytes of `x`.
pub open spec fn le_bytes(x: u64, k: nat) -> Seq<u8>
    decreases k,
{
    if k == 0 {
        Seq::empty()
    } else {
        seq![(x % 256) as u8] + le_bytes(x / 256, (k - 1) as nat)
    }
}

/// The seed hashed to derive one reference-string point: a one-byte
/// domain-separation tag, then the point's index and the retry counter, each
/// as eight little-endian bytes.
pub open spec fn derivation_seed(tag: u8, index: u64, attempt: u64) -> Seq<u8> {
    seq![tag] + le_bytes(index, 8) + le_bytes(attempt, 8)
}

/// What the 64-byte BLAKE2b digest of a byte sequence is; it depends on the
/// input bytes alone.
pub uninterp spec fn blake2b512_of(input: Seq<u8>) -> Seq<u8>;

/// Relies on blake2's `Blake2b512`: a 64-byte digest of the input bytes,
/// depending on the input bytes alone.
#[verifier::external_body]
pub(crate) fn blake2b512(input: &Vec<u8>) -> (r: Vec<u8>)
    ensures
        r@ == blake2b512_of(input@),
        r@.len() == 64,
{
    Blake2b512::digest(input.as_slice()).to_vec()
}

/// Appends the eight little-endian bytes of `x`.
fn push_le8(out: &mut Vec<u8>, x: u64)
    ensures
        final(out)@ == old(out)@ + le_bytes(x, 8),
{
    let mut v: u64 = x;
    let mut k: usize = 0;
    while k < 8
        invariant
            k <= 8,
            old(out)@ + le_bytes(x, 8) == out@ + le_bytes(v, (8 - k) as nat),
        decreases 8 - k,
    {
        proof {
            assert((out@ + seq![(v % 256) as u8]) + le_bytes(v / 256, (8 - (k + 1)) as nat) =~= out@
                + le_bytes(v, (8 - k) as nat));
        }
        out.push((v % 256) as u8);
        v = v / 256;
        k = k + 1;
    }
    proof {
        assert(out@ + le_bytes(v, 0) =~= out@);
    }
}

/// Builds the derivation seed for `tag`, `index` and `attempt`.
pub(crate) fn build_seed(tag: u8, index: u64, attempt: u64) -> (r: Vec<u8>)
    ensures
        r@ == derivation_seed(tag, index, attempt),
{
    let mut out: Vec<u8> = Vec::new();
    out.push(tag);
    push_le8(&mut out, index);
    push_le8(&mut out, attempt);
    proof {
        assert(out@ =~= derivation_seed(tag, index, attempt));
    }
    out
}

} // verus!
