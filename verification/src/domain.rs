use vstd::prelude::*;
use vstd::arithmetic::power2::{pow2, lemma2_to64, lemma_pow2_strictly_increases};
use crate::error::SrsError;

verus! {

/// The largest two-adicity of the scalar fields served by this library: both
/// Pasta scalar fields contain a multiplicative subgroup of order `2^32`, and
/// no larger power of two.
pub const MAX_LOG2_DOMAIN_SIZE: usize = 32;

/// A domain size is valid when a multiplicative subgroup of exactly that
/// order exists in the scalar field: the size must be a power of two no
/// larger than `2^32`.
pub open spec fn valid_domain_size(n: int) -> bool {
    exists|k: nat| k <= MAX_LOG2_DOMAIN_SIZE && n == pow2(k)
}

/// `2^k` as a machine integer.
pub fn pow2_usize(k: usize) -> (r: usize)
    requires
        k <= MAX_LOG2_DOMAIN_SIZE,
        pow2(k as nat) <= usize::MAX,
    ensures
        r == pow2(k as nat),
{
    let mut p: usize = 1;
    let mut j: usize = 0;
    proof {
        lemma2_to64();
    }
    while j < k
        invariant
            j <= k,
            k <= MAX_LOG2_DOMAIN_SIZE,
            pow2(k as nat) <= usize::MAX,
            p == pow2(j as nat),
        decreases k - j,
    {
        proof {
            if j as nat + 1 < k as nat {
                lemma_pow2_strictly_increases(j as nat + 1, k as nat);
            }
            assert(pow2(j as nat + 1) == 2 * pow2(j as nat)) by {
                vstd::arithmetic::power2::lemma_pow2_unfold(j as nat + 1);
            }
        }
        p = p * 2;
        j = j + 1;
    }
    p
}

/// Decides domain validity: returns true exactly on the powers of two up to
/// `2^32`.
pub fn is_valid_domain_size(n: usize) -> (r: bool)
    ensures
        r == valid_domain_size(n as int),
{
    let n64: u64 = n as u64;
    let mut p: u64 = 1;
    let mut k: usize = 0;
    proof {
        lemma2_to64();
    }
    loop
        invariant
            k <= MAX_LOG2_DOMAIN_SIZE,
            p == pow2(k as nat),
            n64 == n,
            forall|j: nat| j < k ==> pow2(j) != n,
        decreases MAX_LOG2_DOMAIN_SIZE - k,
    {
        if p == n64 {
            return true;
        }
        if k == MAX_LOG2_DOMAIN_SIZE {
            proof {
                assert forall|j: nat| j <= MAX_LOG2_DOMAIN_SIZE implies pow2(j) != n by {
                    if j < k {
                    } else {
                        assert(j == k as nat);
                    }
                }
                assert(!valid_domain_size(n as int));
            }
            return false;
        }
        proof {
            lemma2_to64();
            if (k as nat) < 31 {
                lemma_pow2_strictly_increases(k as nat, 31);
            }
        }
        p = p * 2;
        k = k + 1;
    }
}

/// A valid domain size is at least one.
pub proof fn lemma_valid_domain_size_pos(n: int)
    requires
        valid_domain_size(n),
    ensures
        n >= 1,
{
    let k = choose|k: nat| k <= MAX_LOG2_DOMAIN_SIZE && n == pow2(k);
    vstd::arithmetic::power2::lemma_pow2_pos(k);
}

/// A multiplicative evaluation domain of the scalar field, identified by its
/// size. The subgroup generator itself is an external primitive; the library
/// only ever reads the size, so the size is all the type holds.
#[derive(Clone, Copy, Debug, PartialEq, Eq, Structural)]
pub struct Domain {
    pub size: usize,
}

impl Domain {
    /// A domain is well formed when its size has a subgroup of roots of
    /// unity.
    pub open spec fn wf(self) -> bool {
        valid_domain_size(self.size as int)
    }

    /// Builds the domain of the requested size, and fails with
    /// `InvalidDomainSize` exactly when no subgroup of that order exists.
    pub fn new(size: usize) -> (r: Result<Domain, SrsError>)
        ensures
            valid_domain_size(size as int) <==> r is Ok,
            r matches Ok(d) ==> d.size == size && d.wf(),
            r matches Err(e) ==> e == SrsError::InvalidDomainSize,
    {
        if is_valid_domain_size(size) {
            Ok(Domain { size })
        } else {
            Err(SrsError::InvalidDomainSize)
        }
    }
}

} // verus!
