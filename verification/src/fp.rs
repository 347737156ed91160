//! The SRS engine over the Vesta curve (scalar field "Fp" of the Pasta
//! pairing that the proof system calls the Fp side).

use vstd::prelude::*;
use vstd::arithmetic::power2::pow2;
use std::collections::HashMap;
use ark_ec::AffineRepr;
use ark_ec::CurveGroup;
use ark_ec::VariableBaseMSM;
use ark_poly::EvaluationDomain;
use ark_serialize::CanonicalDeserialize;
use ark_serialize::CanonicalSerialize;
use rayon::iter::IntoParallelIterator;
use rayon::iter::ParallelIterator;
use crate::domain::{valid_domain_size, is_valid_domain_size, pow2_usize, Domain,
    MAX_LOG2_DOMAIN_SIZE};
use crate::error::SrsError;
use crate::handle::HandleTable;
use crate::seeding::{blake2b512, blake2b512_of, build_seed, derivation_seed};
use crate::srs::{basis_view, copy_basis, copy_comm, copy_vec, PolyComm, Srs};

verus! {

/// A point of the Vesta curve, carried opaquely: the library moves and
/// stores points and hands them to the trusted primitives, and never looks
/// inside them.
#[verifier::external_body]
pub struct FpPoint {
    p: ark_vesta::Affine,
}

impl Clone for FpPoint {
    /// Relies on the point being a plain copyable value.
    #[verifier::external_body]
    fn clone(&self) -> (r: Self)
        ensures
            r == *self,
    {
        FpPoint { p: self.p }
    }
}

impl Copy for FpPoint {

}

/// An element of the Vesta scalar field, carried opaquely.
#[verifier::external_body]
pub struct FpScalar {
    s: ark_vesta::Fr,
}

impl Clone for FpScalar {
    /// Relies on the scalar being a plain copyable value.
    #[verifier::external_body]
    fn clone(&self) -> (r: Self)
        ensures
            r == *self,
    {
        FpScalar { s: self.s }
    }
}

impl Copy for FpScalar {

}

/// What `ark_ec`'s `from_random_bytes` yields on the Vesta curve for given
/// bytes; it depends on the bytes alone.
pub uninterp spec fn point_of_bytes(bytes: Seq<u8>) -> Option<FpPoint>;

/// What the Vesta multi-scalar multiplication of equally long base and
/// scalar sequences is; it depends on the operands alone.
pub uninterp spec fn msm_of(bases: Seq<FpPoint>, scalars: Seq<FpScalar>) -> FpPoint;

/// What the embedding of a machine integer into the Vesta scalar field is.
pub uninterp spec fn scalar_of_u64(x: u64) -> FpScalar;

/// What the product of two Vesta scalars is.
pub uninterp spec fn product_of(a: FpScalar, b: FpScalar) -> FpScalar;

/// What interpolation over the radix-2 domain of size `n` yields for an
/// evaluation vector: the coefficients, trailing zeroes stripped, of the
/// unique polynomial of degree below `n` taking those values on the domain.
pub uninterp spec fn interpolation_of(evals: Seq<FpScalar>, n: int) -> Seq<FpScalar>;

/// What the compressed canonical encoding of a point vector is.
pub uninterp spec fn encoding_of(points: Seq<FpPoint>) -> Seq<u8>;

/// What decoding a compressed canonical point vector from the front of a
/// byte sequence yields, absent when the bytes do not parse and validate.
pub uninterp spec fn decoding_of(bytes: Seq<u8>) -> Option<Seq<FpPoint>>;

/// Relies on ark_ec's `AffineRepr::from_random_bytes` for Vesta: the result
/// depends on the input bytes alone.
#[verifier::external_body]
fn point_from_bytes(bytes: &Vec<u8>) -> (r: Option<FpPoint>)
    ensures
        r == point_of_bytes(bytes@),
{
    ark_vesta::Affine::from_random_bytes(bytes.as_slice()).map(|p| FpPoint { p })
}

/// Relies on ark_ec's `VariableBaseMSM::msm` for Vesta: on equally long
/// slices it succeeds, and the result depends on the bases and scalars
/// alone.
#[verifier::external_body]
fn msm(bases: &Vec<FpPoint>, scalars: &Vec<FpScalar>) -> (r: FpPoint)
    requires
        bases@.len() == scalars@.len(),
    ensures
        r == msm_of(bases@, scalars@),
{
    let b: Vec<ark_vesta::Affine> = bases.iter().map(|q| q.p).collect();
    let s: Vec<ark_vesta::Fr> = scalars.iter().map(|q| q.s).collect();
    let sum: ark_vesta::Projective = VariableBaseMSM::msm(&b, &s).unwrap();
    FpPoint { p: sum.into_affine() }
}

/// Relies on ark_ff's `From<u64>` for the Vesta scalar field.
#[verifier::external_body]
pub fn scalar_from_u64(x: u64) -> (r: FpScalar)
    ensures
        r == scalar_of_u64(x),
{
    FpScalar { s: ark_vesta::Fr::from(x) }
}

/// Relies on ark_ff's field multiplication for the Vesta scalar field.
#[verifier::external_body]
fn scalar_product(a: FpScalar, b: FpScalar) -> (r: FpScalar)
    ensures
        r == product_of(a, b),
{
    FpScalar { s: a.s * b.s }
}

/// Relies on ark_ec's `PartialEq` for Vesta affine points: structural
/// equality of the point values.
#[verifier::external_body]
pub fn point_eq(a: &FpPoint, b: &FpPoint) -> (r: bool)
    ensures
        r == (a == b),
{
    a.p == b.p
}

/// Relies on ark_poly's `Radix2EvaluationDomain` and
/// `Evaluations::interpolate`: a power-of-two size up to the field's
/// two-adicity has a radix-2 domain, and interpolation returns the
/// coefficients of the interpolating polynomial, so the result depends on
/// the evaluations and the size alone and is no longer than the domain.
#[verifier::external_body]
fn interpolate(evals: Vec<FpScalar>, n: usize) -> (r: Vec<FpScalar>)
    requires
        valid_domain_size(n as int),
        evals@.len() == n,
    ensures
        r@ == interpolation_of(evals@, n as int),
        r@.len() <= n,
{
    let dom: ark_poly::Radix2EvaluationDomain<ark_vesta::Fr> =
        ark_poly::Radix2EvaluationDomain::new(n).unwrap();
    let vals: Vec<ark_vesta::Fr> = evals.into_iter().map(|e| e.s).collect();
    let poly = ark_poly::Evaluations::from_vec_and_domain(vals, dom).interpolate();
    poly.coeffs.into_iter().map(|s| FpScalar { s }).collect()
}

/// Relies on ark_serialize's `CanonicalSerialize` for `Vec` of Vesta points,
/// which cannot fail here — the in-memory byte buffer's writer is infallible
/// and curve-point flags fit the flag byte — and on `CanonicalDeserialize`
/// reading back exactly what it wrote: the encoding depends on the points
/// alone and decodes to them.
#[verifier::external_body]
fn encode_points(points: &Vec<FpPoint>) -> (r: Vec<u8>)
    ensures
        r@ == encoding_of(points@),
        decoding_of(r@) == Some(points@),
{
    let raw: Vec<ark_vesta::Affine> = points.iter().map(|q| q.p).collect();
    let mut out: Vec<u8> = Vec::new();
    raw.serialize_compressed(&mut out).expect("writing to a byte vector cannot fail");
    out
}

/// Relies on ark_serialize's `CanonicalDeserialize` for `Vec` of Vesta
/// points: it reads a prefix of the byte stream and validates the points,
/// and the result depends on the bytes alone.
#[verifier::external_body]
fn decode_points(bytes: &Vec<u8>, offset: usize) -> (r: Option<Vec<FpPoint>>)
    requires
        offset <= bytes@.len(),
    ensures
        match r {
            Some(v) => decoding_of(bytes@.skip(offset as int)) == Some(v@),
            None => decoding_of(bytes@.skip(offset as int)) is None,
        },
{
    match Vec::<ark_vesta::Affine>::deserialize_compressed(&bytes[offset..]) {
        Ok(v) => Some(v.into_iter().map(|p| FpPoint { p }).collect()),
        Err(_) => None,
    }
}

/// The domain-separation tag of the ordinary generators.
pub const GENERATOR_TAG: u8 = 0;

/// The domain-separation tag of the blinding generator.
pub const BLINDER_TAG: u8 = 1;

/// The outcome of one derivation attempt.
pub open spec fn attempt_result(tag: u8, index: u64, attempt: u64) -> Option<FpPoint> {
    point_of_bytes(blake2b512_of(derivation_seed(tag, index, attempt)))
}

/// Whether `attempt` is the first counter whose hashed seed decodes to a
/// curve point.
pub open spec fn first_success_at(tag: u8, index: u64, attempt: u64) -> bool {
    &&& attempt_result(tag, index, attempt) is Some
    &&& forall|b: u64| b < attempt ==> (#[trigger] attempt_result(tag, index, b)) is None
}

/// Whether `p` is the point the fixed derivation yields for `tag` and
/// `index`: the result of the first successful attempt.
pub open spec fn is_derived_point(tag: u8, index: u64, p: FpPoint) -> bool {
    exists|a: u64|
        #[trigger] first_success_at(tag, index, a) && attempt_result(tag, index, a) == Some(p)
}

/// The derivation is a function: any two points derived for the same tag and
/// index are equal.
pub proof fn lemma_derived_point_unique(tag: u8, index: u64, p1: FpPoint, p2: FpPoint)
    requires
        is_derived_point(tag, index, p1),
        is_derived_point(tag, index, p2),
    ensures
        p1 == p2,
{
    let a1 = choose|a: u64|
        #[trigger] first_success_at(tag, index, a) && attempt_result(tag, index, a) == Some(p1);
    let a2 = choose|a: u64|
        #[trigger] first_success_at(tag, index, a) && attempt_result(tag, index, a) == Some(p2);
    if a1 < a2 {
        assert(attempt_result(tag, index, a1) is None);
    } else if a2 < a1 {
        assert(attempt_result(tag, index, a2) is None);
    }
}

/// Whether the fixed derivation finds any curve point for `tag` and
/// `index`. Each attempt succeeds for about half of all seeds, so this
/// fails, over every possible counter value, only with beyond-astronomical
/// improbability.
pub open spec fn derivation_succeeds(tag: u8, index: u64) -> bool {
    exists|a: u64| (#[trigger] attempt_result(tag, index, a)) is Some
}

/// Derives one point: hash the seed for rising retry counters until the
/// bytes decode to a curve point, as fixed derivations of reference strings
/// do. No secret randomness is involved. Absent only when every counter
/// value fails.
fn derive_point(tag: u8, index: u64) -> (r: Option<FpPoint>)
    ensures
        r matches Some(p) ==> is_derived_point(tag, index, p),
        r is None ==> !derivation_succeeds(tag, index),
{
    let mut attempt: u64 = 0;
    loop
        invariant
            forall|b: u64| b < attempt ==> (#[trigger] attempt_result(tag, index, b)) is None,
        decreases u64::MAX - attempt,
    {
        let seed = build_seed(tag, index, attempt);
        let digest = blake2b512(&seed);
        match point_from_bytes(&digest) {
            Some(p) => {
                proof {
                    assert(first_success_at(tag, index, attempt));
                }
                return Some(p);
            },
            None => {},
        }
        if attempt == u64::MAX {
            proof {
                assert forall|a: u64| !((#[trigger] attempt_result(tag, index, a)) is Some) by {
                    if a < u64::MAX {
                    } else {
                        assert(a == attempt);
                    }
                }
            }
            return None;
        }
        attempt = attempt + 1;
    }
}

/// The `index`-th ordinary generator.
pub open spec fn is_generator(index: int, p: FpPoint) -> bool {
    is_derived_point(GENERATOR_TAG, index as u64, p)
}

/// The blinding generator.
pub open spec fn is_blinder(p: FpPoint) -> bool {
    is_derived_point(BLINDER_TAG, 0, p)
}

/// Derives the `index`-th ordinary generator.
fn derive_generator_at(index: u64) -> (r: Option<FpPoint>)
    ensures
        r matches Some(p) ==> is_generator(index as int, p),
        r is None ==> !derivation_succeeds(GENERATOR_TAG, index),
{
    derive_point(GENERATOR_TAG, index)
}

/// What `create` promises: `depth` generators each derived from its index,
/// an independently derived blinding generator, and an empty cache.
pub open spec fn is_created_srs(depth: int, s: Srs<FpPoint>) -> bool {
    &&& s.g@.len() == depth
    &&& forall|i: int| 0 <= i < depth ==> is_generator(i, #[trigger] s.g@[i])
    &&& is_blinder(s.h)
    &&& s.lagrange_bases@ == Map::<usize, Vec<PolyComm<FpPoint>>>::empty()
}

/// When creation reports an unsupported group operation, some needed
/// derivation found no point.
pub open spec fn creation_obstructed(depth: int) -> bool {
    ||| exists|i: u64| i < depth && !(#[trigger] derivation_succeeds(GENERATOR_TAG, i))
    ||| !derivation_succeeds(BLINDER_TAG, 0)
}

/// Deterministically derives an SRS of the given depth. Fails only when a
/// group operation the setup needs is unsupported: some derivation finds no
/// curve point, which no depth reached in practice ever exhibits.
pub fn create(depth: usize) -> (r: Result<Srs<FpPoint>, SrsError>)
    ensures
        r matches Ok(s) ==> is_created_srs(depth as int, s) && s.cache_wf(),
        r matches Err(e) ==> e == SrsError::UnsupportedGroupOperation && creation_obstructed(
            depth as int,
        ),
{
    let mut g: Vec<FpPoint> = Vec::new();
    let mut i: usize = 0;
    while i < depth
        invariant
            i <= depth,
            g@.len() == i,
            forall|j: int| 0 <= j < i ==> is_generator(j, #[trigger] g@[j]),
        decreases depth - i,
    {
        match derive_generator_at(i as u64) {
            Some(p) => g.push(p),
            None => {
                return Err(SrsError::UnsupportedGroupOperation);
            },
        }
        i = i + 1;
    }
    match derive_point(BLINDER_TAG, 0) {
        Some(h) => Ok(Srs { h, g, lagrange_bases: HashMap::new() }),
        None => Err(SrsError::UnsupportedGroupOperation),
    }
}

/// Relies on rayon's indexed parallel iterator `map`/`collect` keeping input
/// order: the vector holds, for each index in turn, what the mapped verified
/// derivation returns for it, and collecting options is the option of the
/// collected vector.
#[verifier::external_body]
fn par_derive_generators(depth: usize) -> (r: Option<Vec<FpPoint>>)
    ensures
        r matches Some(v) ==> v@.len() == depth && (forall|j: int|
            0 <= j < depth ==> is_generator(j, #[trigger] v@[j])),
        r is None ==> exists|i: u64|
            i < depth && !(#[trigger] derivation_succeeds(GENERATOR_TAG, i)),
{
    (0..depth as u64).into_par_iter().map(derive_generator_at).collect()
}

/// Derives the same SRS as `create`, partitioning generator derivation
/// across the worker pool. Parallelism is purely a performance choice: the
/// contract is the sequential one.
pub fn create_parallel(depth: usize) -> (r: Result<Srs<FpPoint>, SrsError>)
    ensures
        r matches Ok(s) ==> is_created_srs(depth as int, s) && s.cache_wf(),
        r matches Err(e) ==> e == SrsError::UnsupportedGroupOperation && creation_obstructed(
            depth as int,
        ),
{
    match par_derive_generators(depth) {
        Some(g) => {
            match derive_point(BLINDER_TAG, 0) {
                Some(h) => Ok(Srs { h, g, lagrange_bases: HashMap::new() }),
                None => Err(SrsError::UnsupportedGroupOperation),
            }
        },
        None => Err(SrsError::UnsupportedGroupOperation),
    }
}

/// Law: parallel creation is deterministic — any two reference strings
/// meeting the creation contract for one depth have equal `h` and equal `g`,
/// so `create_parallel` and `create` agree.
pub proof fn lemma_create_deterministic(depth: int, s1: Srs<FpPoint>, s2: Srs<FpPoint>)
    requires
        is_created_srs(depth, s1),
        is_created_srs(depth, s2),
    ensures
        s1.h == s2.h,
        s1.g@ == s2.g@,
{
    lemma_derived_point_unique(BLINDER_TAG, 0, s1.h, s2.h);
    assert forall|i: int| 0 <= i < depth implies s1.g@[i] == s2.g@[i] by {
        lemma_derived_point_unique(GENERATOR_TAG, i as u64, s1.g@[i], s2.g@[i]);
    }
    assert(s1.g@ =~= s2.g@);
}

/// `a` clipped to at most `b`.
spec fn clipped(a: int, b: int) -> int {
    if a <= b {
        a
    } else {
        b
    }
}

/// The `j`-th coefficient block of `coeffs` for chunks of width `n`, padded
/// with the zero scalar to exactly `n` entries.
pub open spec fn chunk_of(coeffs: Seq<FpScalar>, n: int, j: int) -> Seq<FpScalar> {
    Seq::new(
        n as nat,
        |t: int|
            if j * n + t < coeffs.len() {
                coeffs[j * n + t]
            } else {
                scalar_of_u64(0)
            },
    )
}

/// What the non-hiding commitment of a coefficient vector is: one group
/// element per chunk, each the multi-scalar multiplication of the generators
/// with the corresponding zero-padded coefficient block.
pub open spec fn commitment_of(g: Seq<FpPoint>, coeffs: Seq<FpScalar>, num_chunks: int) -> Seq<
    FpPoint,
> {
    Seq::new(num_chunks as nat, |j: int| msm_of(g, chunk_of(coeffs, g.len() as int, j)))
}

/// Commits the coefficient-form polynomial against the SRS, splitting it
/// into exactly `num_chunks` contiguous blocks of the SRS depth, the last
/// ones zero-padded. Deterministic in the generators, the coefficients and
/// the chunk count.
pub fn commit_non_hiding(srs: &Srs<FpPoint>, coeffs: &Vec<FpScalar>, num_chunks: usize) -> (r:
    PolyComm<FpPoint>)
    requires
        srs.g@.len() >= 1,
        num_chunks >= 1,
        coeffs@.len() <= num_chunks * srs.g@.len(),
    ensures
        r.elems@.len() == num_chunks,
        r.elems@ == commitment_of(srs.g@, coeffs@, num_chunks as int),
{
    let n = srs.g.len();
    let zero = scalar_from_u64(0);
    let mut elems: Vec<FpPoint> = Vec::new();
    let mut idx: usize = 0;
    let mut j: usize = 0;
    while j < num_chunks
        invariant
            n == srs.g@.len(),
            n >= 1,
            zero == scalar_of_u64(0),
            j <= num_chunks,
            coeffs@.len() <= num_chunks * srs.g@.len(),
            elems@.len() == j,
            idx == clipped(j * n, coeffs@.len() as int),
            forall|q: int|
                0 <= q < j ==> elems@[q] == msm_of(
                    srs.g@,
                    chunk_of(coeffs@, srs.g@.len() as int, q),
                ),
        decreases num_chunks - j,
    {
        let mut chunk: Vec<FpScalar> = Vec::new();
        let mut t: usize = 0;
        while t < n
            invariant
                n == srs.g@.len(),
                zero == scalar_of_u64(0),
                t <= n,
                chunk@.len() == t,
                idx == clipped(j * n + t, coeffs@.len() as int),
                forall|u: int|
                    0 <= u < t ==> chunk@[u] == chunk_of(coeffs@, srs.g@.len() as int, j as int)[u],
            decreases n - t,
        {
            if idx < coeffs.len() {
                chunk.push(coeffs[idx]);
                idx = idx + 1;
            } else {
                chunk.push(zero);
            }
            t = t + 1;
        }
        proof {
            assert(chunk@ =~= chunk_of(coeffs@, srs.g@.len() as int, j as int));
            assert((j + 1) * n == j * n + n) by (nonlinear_arith);
        }
        elems.push(msm(&srs.g, &chunk));
        j = j + 1;
    }
    proof {
        assert(elems@ =~= commitment_of(srs.g@, coeffs@, num_chunks as int));
    }
    PolyComm { elems }
}

/// Commits an evaluation vector over the domain of the requested size:
/// builds the domain, interpolates, and commits the coefficients in a single
/// chunk. Fails with `InvalidDomainSize` exactly when the size has no
/// subgroup or the evaluation vector does not match the domain; mismatches
/// are never silently truncated or padded.
pub fn commit_evaluations(srs: &Srs<FpPoint>, domain_size: usize, evals: &Vec<FpScalar>) -> (r:
    Result<PolyComm<FpPoint>, SrsError>)
    requires
        srs.g@.len() >= 1,
        domain_size <= srs.g@.len(),
    ensures
        (valid_domain_size(domain_size as int) && evals@.len() == domain_size) <==> r is Ok,
        r matches Ok(c) ==> c.elems@ == commitment_of(
            srs.g@,
            interpolation_of(evals@, domain_size as int),
            1,
        ) && c.elems@.len() == 1,
        r matches Err(e) ==> e == SrsError::InvalidDomainSize,
{
    if !is_valid_domain_size(domain_size) {
        return Err(SrsError::InvalidDomainSize);
    }
    if evals.len() != domain_size {
        return Err(SrsError::InvalidDomainSize);
    }
    let coeffs = interpolate(copy_vec(evals), domain_size);
    Ok(commit_non_hiding(srs, &coeffs, 1))
}

/// The partial b-polynomial coefficient: the product of the challenges
/// selected by the low `j` bits of the index `i`, highest-indexed challenge
/// first.
pub open spec fn b_coeff_prefix(chals: Seq<FpScalar>, i: u64, j: nat) -> FpScalar
    decreases j,
{
    if j == 0 {
        scalar_of_u64(1)
    } else {
        let prev = b_coeff_prefix(chals, i, (j - 1) as nat);
        if (i >> ((j - 1) as u64)) & 1 == 1 {
            product_of(prev, chals[chals.len() - j])
        } else {
            prev
        }
    }
}

/// The `i`-th coefficient of the b-polynomial of a challenge sequence.
pub open spec fn b_coeff(chals: Seq<FpScalar>, i: u64) -> FpScalar {
    b_coeff_prefix(chals, i, chals.len())
}

/// The coefficient vector of the b-polynomial: `2^k` coefficients for `k`
/// challenges, the bit-indexed products that drive the inner-product
/// argument's folding.
pub open spec fn b_coefficients(chals: Seq<FpScalar>) -> Seq<FpScalar> {
    Seq::new(pow2(chals.len()), |i: int| b_coeff(chals, i as u64))
}

/// Computes the b-polynomial coefficients of a challenge sequence.
fn compute_b_coefficients(chals: &Vec<FpScalar>) -> (r: Vec<FpScalar>)
    requires
        chals@.len() <= MAX_LOG2_DOMAIN_SIZE,
        pow2(chals@.len()) <= usize::MAX,
    ensures
        r@ == b_coefficients(chals@),
        r@.len() == pow2(chals@.len()),
{
    let k = chals.len();
    let size = pow2_usize(k);
    let one = scalar_from_u64(1);
    let mut out: Vec<FpScalar> = Vec::new();
    let mut i: usize = 0;
    while i < size
        invariant
            k == chals@.len(),
            k <= MAX_LOG2_DOMAIN_SIZE,
            size == pow2(k as nat),
            one == scalar_of_u64(1),
            i <= size,
            out@.len() == i,
            forall|q: int| 0 <= q < i ==> out@[q] == b_coeff(chals@, q as u64),
        decreases size - i,
    {
        let iw: u64 = i as u64;
        let mut acc = one;
        let mut j: usize = 0;
        while j < k
            invariant
                k == chals@.len(),
                k <= MAX_LOG2_DOMAIN_SIZE,
                j <= k,
                iw == i as u64,
                one == scalar_of_u64(1),
                acc == b_coeff_prefix(chals@, iw, j as nat),
        decreases k - j,
        {
            if (iw >> (j as u64)) & 1 == 1 {
                acc = scalar_product(acc, chals[k - 1 - j]);
            }
            j = j + 1;
        }
        out.push(acc);
        i = i + 1;
    }
    proof {
        assert(out@ =~= b_coefficients(chals@));
    }
    out
}

/// Commits the b-polynomial of a challenge sequence in a single chunk. A
/// pure function of the challenges and the SRS; nothing is cached.
pub fn b_poly_commitment(srs: &Srs<FpPoint>, chals: &Vec<FpScalar>) -> (r: PolyComm<FpPoint>)
    requires
        srs.g@.len() >= 1,
        chals@.len() <= MAX_LOG2_DOMAIN_SIZE,
        pow2(chals@.len()) <= srs.g@.len(),
    ensures
        r.elems@.len() == 1,
        r.elems@ == commitment_of(srs.g@, b_coefficients(chals@), 1),
{
    let depth = srs.g.len();
    proof {
        assert(pow2(chals@.len()) <= depth);
    }
    let coeffs = compute_b_coefficients(chals);
    commit_non_hiding(srs, &coeffs, 1)
}

/// Law: evaluation-commitment equivalence — what `commit_evaluations`
/// returns for an evaluation vector is exactly what `commit_non_hiding`
/// returns, in a single chunk, for the interpolation of that vector over the
/// same domain.
pub proof fn lemma_evaluation_commitment_equivalence(
    g: Seq<FpPoint>,
    evals: Seq<FpScalar>,
    n: int,
    by_evals: Seq<FpPoint>,
    coeffs: Seq<FpScalar>,
    direct: Seq<FpPoint>,
)
    requires
        by_evals == commitment_of(g, interpolation_of(evals, n), 1),
        coeffs == interpolation_of(evals, n),
        direct == commitment_of(g, coeffs, 1),
    ensures
        by_evals == direct,
{
}

/// The accumulator elements generated from a challenge sequence split into
/// `count` blocks of `rounds` challenges: element `j` is the single-chunk
/// b-polynomial commitment of block `j`.
pub open spec fn accumulator_elems(
    g: Seq<FpPoint>,
    count: int,
    rounds: int,
    chals: Seq<FpScalar>,
) -> Seq<FpPoint> {
    Seq::new(
        count as nat,
        |j: int|
            msm_of(
                g,
                chunk_of(
                    b_coefficients(chals.subrange(j * rounds, (j + 1) * rounds)),
                    g.len() as int,
                    0,
                ),
            ),
    )
}

/// The shape a commitment vector and challenge sequence must have for the
/// batched check: at least one commitment, the challenges split evenly, and
/// the b-polynomial of one block fitting the SRS depth.
pub open spec fn accumulator_shape_ok(
    g: Seq<FpPoint>,
    count: int,
    chals: Seq<FpScalar>,
) -> bool {
    &&& count >= 1
    &&& (chals.len() as int) % count == 0
    &&& (chals.len() as int) / count <= MAX_LOG2_DOMAIN_SIZE
    &&& pow2(((chals.len() as int) / count) as nat) <= g.len()
}

/// What the batched discrete-log accumulator check decides: the commitments
/// are exactly the accumulator elements regenerated from the challenges.
pub open spec fn accumulator_check_spec(
    g: Seq<FpPoint>,
    comms: Seq<FpPoint>,
    chals: Seq<FpScalar>,
) -> bool {
    &&& accumulator_shape_ok(g, comms.len() as int, chals)
    &&& comms == accumulator_elems(g, comms.len() as int, (chals.len() as int) / (comms.len() as int), chals)
}

/// Generates `count` accumulator elements from a challenge sequence, the
/// generation-side counterpart of the batched check. Deterministic in its
/// inputs.
pub fn batch_accumulator_generate(srs: &Srs<FpPoint>, count: usize, chals: &Vec<FpScalar>) -> (r:
    Vec<FpPoint>)
    requires
        srs.g@.len() >= 1,
        accumulator_shape_ok(srs.g@, count as int, chals@),
    ensures
        r@.len() == count,
        r@ == accumulator_elems(srs.g@, count as int, (chals@.len() as int) / (count as int), chals@),
{
    let rounds = chals.len() / count;
    let depth = srs.g.len();
    let total = chals.len();
    proof {
        assert(pow2(((chals@.len() as int) / (count as int)) as nat) <= depth);
    }
    let mut out: Vec<FpPoint> = Vec::new();
    let mut j: usize = 0;
    let mut start: usize = 0;
    proof {
        vstd::arithmetic::div_mod::lemma_fundamental_div_mod(chals@.len() as int, count as int);
    }
    while j < count
        invariant
            count >= 1,
            srs.g@.len() >= 1,
            depth == srs.g@.len(),
            total == chals@.len(),
            rounds == (chals@.len() as int) / (count as int),
            chals@.len() == count * rounds,
            rounds <= MAX_LOG2_DOMAIN_SIZE,
            pow2(rounds as nat) <= srs.g@.len(),
            j <= count,
            start == j * rounds,
            out@.len() == j,
            forall|q: int|
                0 <= q < j ==> out@[q] == accumulator_elems(
                    srs.g@,
                    count as int,
                    rounds as int,
                    chals@,
                )[q],
        decreases count - j,
    {
        proof {
            assert(j * rounds + rounds == (j + 1) * rounds) by (nonlinear_arith);
            assert((j + 1) * rounds <= count * rounds) by (nonlinear_arith)
                requires
                    j + 1 <= count,
                    rounds >= 0,
            ;
            assert(start + rounds <= total);
        }
        let block = copy_range(chals, start, rounds);
        let coeffs = compute_b_coefficients(&block);
        let comm = commit_non_hiding(srs, &coeffs, 1);
        out.push(comm.elems[0]);
        start = start + rounds;
        j = j + 1;
    }
    proof {
        assert(out@ =~= accumulator_elems(srs.g@, count as int, rounds as int, chals@));
    }
    out
}

/// Copies `len` entries of `v` starting at `start`.
fn copy_range(v: &Vec<FpScalar>, start: usize, len: usize) -> (r: Vec<FpScalar>)
    requires
        start + len <= v@.len(),
    ensures
        r@ == v@.subrange(start as int, start as int + len as int),
{
    let vlen = v.len();
    let mut out: Vec<FpScalar> = Vec::new();
    let mut t: usize = 0;
    while t < len
        invariant
            vlen == v@.len(),
            start + len <= vlen,
            t <= len,
            out@.len() == t,
            forall|u: int| 0 <= u < t ==> out@[u] == v@[start + u],
        decreases len - t,
    {
        out.push(v[start + t]);
        t = t + 1;
    }
    proof {
        assert(out@ =~= v@.subrange(start as int, start as int + len as int));
    }
    out
}

/// Verifies a batched combination of commitments against the challenges and
/// the SRS generators. Total: a boolean, never an error; a failing check is
/// an expected outcome. True exactly when the commitments equal the
/// regenerated accumulator elements.
pub fn batch_accumulator_check(srs: &Srs<FpPoint>, comms: &Vec<FpPoint>, chals: &Vec<FpScalar>)
    -> (r: bool)
    requires
        srs.g@.len() >= 1,
    ensures
        r == accumulator_check_spec(srs.g@, comms@, chals@),
{
    let count = comms.len();
    if count == 0 {
        return false;
    }
    if chals.len() % count != 0 {
        return false;
    }
    let rounds = chals.len() / count;
    if rounds > MAX_LOG2_DOMAIN_SIZE {
        return false;
    }
    let depth = srs.g.len();
    let p = pow2_u64(rounds);
    if p > depth as u64 {
        return false;
    }
    let expected = batch_accumulator_generate(srs, count, chals);
    let mut j: usize = 0;
    while j < count
        invariant
            count == comms@.len(),
            expected@.len() == count,
            expected@ == accumulator_elems(srs.g@, count as int, (chals@.len() as int) / (count as int), chals@),
            accumulator_shape_ok(srs.g@, count as int, chals@),
            j <= count,
            forall|q: int| 0 <= q < j ==> comms@[q] == expected@[q],
        decreases count - j,
    {
        if !point_eq(&comms[j], &expected[j]) {
            proof {
                assert(comms@ != accumulator_elems(
                    srs.g@,
                    count as int,
                    (chals@.len() as int) / (count as int),
                    chals@,
                ));
            }
            return false;
        }
        j = j + 1;
    }
    proof {
        assert(comms@ =~= expected@);
    }
    true
}

/// `2^k` as a 64-bit integer.
fn pow2_u64(k: usize) -> (r: u64)
    requires
        k <= MAX_LOG2_DOMAIN_SIZE,
    ensures
        r == pow2(k as nat),
{
    let mut p: u64 = 1;
    let mut j: usize = 0;
    proof {
        vstd::arithmetic::power2::lemma2_to64();
    }
    while j < k
        invariant
            j <= k,
            k <= MAX_LOG2_DOMAIN_SIZE,
            p == pow2(j as nat),
        decreases k - j,
    {
        proof {
            vstd::arithmetic::power2::lemma2_to64();
            if (j as nat) < 31 {
                vstd::arithmetic::power2::lemma_pow2_strictly_increases(j as nat, 31);
            }
        }
        p = p * 2;
        j = j + 1;
    }
    p
}

/// Law: accumulator consistency — the elements the generator produces for a
/// challenge sequence pass the check against that same sequence.
pub proof fn lemma_accumulator_consistency(
    g: Seq<FpPoint>,
    count: int,
    chals: Seq<FpScalar>,
    elems: Seq<FpPoint>,
)
    requires
        g.len() >= 1,
        accumulator_shape_ok(g, count, chals),
        elems == accumulator_elems(g, count, (chals.len() as int) / count, chals),
    ensures
        accumulator_check_spec(g, elems, chals),
{
    assert(elems.len() == count);
}

/// Law: the check is exact — commitments of the right shape that differ
/// anywhere from the regenerated elements are rejected.
pub proof fn lemma_accumulator_rejects_mismatch(
    g: Seq<FpPoint>,
    comms: Seq<FpPoint>,
    chals: Seq<FpScalar>,
)
    requires
        comms != accumulator_elems(g, comms.len() as int, (chals.len() as int) / (comms.len() as int), chals),
    ensures
        !accumulator_check_spec(g, comms, chals),
{
}

/// Serializes `h` and `g` (never the cache) with the external codec. Total:
/// encoding into memory always succeeds, and the bytes decode back to the
/// same layout.
pub fn srs_to_bytes(srs: &Srs<FpPoint>) -> (r: Vec<u8>)
    ensures
        r@ == encoding_of(srs.flat_view()),
        decoding_of(r@) == Some(srs.flat_view()),
{
    let flat = srs.to_flat();
    encode_points(&flat)
}

/// Deserializes an SRS from the byte stream starting at `offset`, with an
/// empty cache. A stream that does not decode to at least the blinding
/// generator is a typed `CodecError`, never a silent absence.
pub fn srs_from_bytes(bytes: &Vec<u8>, offset: usize) -> (r: Result<Srs<FpPoint>, SrsError>)
    ensures
        r matches Ok(s) ==> {
            &&& offset <= bytes@.len()
            &&& decoding_of(bytes@.skip(offset as int)) matches Some(v) && v.len() >= 1 && s.h
                == v[0] && s.g@ == v.skip(1)
            &&& s.lagrange_bases@ == Map::<usize, Vec<PolyComm<FpPoint>>>::empty()
            &&& s.cache_wf()
        },
        r matches Err(e) ==> e == SrsError::CodecError && (offset > bytes@.len() || decoding_of(
            bytes@.skip(offset as int),
        ) is None || (decoding_of(bytes@.skip(offset as int)) matches Some(v) && v.len() == 0)),
{
    if offset > bytes.len() {
        return Err(SrsError::CodecError);
    }
    match decode_points(bytes, offset) {
        None => Err(SrsError::CodecError),
        Some(v) => {
            if v.len() == 0 {
                Err(SrsError::CodecError)
            } else {
                Ok(Srs::from_flat(v))
            }
        },
    }
}

/// Law: persistence round trip — an SRS read back from what was written has
/// the same `h` and `g` (the cache is not persisted).
pub proof fn lemma_persistence_round_trip(s: Srs<FpPoint>, b: Seq<u8>, t: Srs<FpPoint>)
    requires
        decoding_of(b) == Some(s.flat_view()),
        decoding_of(b.skip(0)) matches Some(v) && v.len() >= 1 && t.h == v[0] && t.g@ == v.skip(1),
    ensures
        t.h == s.h,
        t.g@ == s.g@,
{
    assert(b.skip(0) =~= b);
    assert(s.flat_view().skip(1) =~= s.g@);
    assert(s.flat_view()[0] == s.h);
}

/// The evaluation vector that is one at index `i` and zero elsewhere.
pub open spec fn unit_evals(n: int, i: int) -> Seq<FpScalar> {
    Seq::new(
        n as nat,
        |t: int|
            if t == i {
                scalar_of_u64(1)
            } else {
                scalar_of_u64(0)
            },
    )
}

/// The number of chunks a polynomial of the domain size takes at the given
/// depth: the ceiling of `n / depth`, written for positive `n` as
/// `(n - 1) / depth + 1`.
pub open spec fn basis_chunks(depth: int, n: int) -> int {
    (n - 1) / depth + 1
}

/// What the computed Lagrange basis for domain size `n` is: commitment `i`
/// commits the interpolation of the `i`-th unit evaluation vector, chunked
/// to cover the whole domain.
pub open spec fn computed_basis(g: Seq<FpPoint>, n: int) -> Seq<Seq<FpPoint>> {
    Seq::new(
        n as nat,
        |i: int|
            commitment_of(g, interpolation_of(unit_evals(n, i), n), basis_chunks(g.len() as int, n)),
    )
}

/// Computes the Lagrange basis for the domain of size `n`: for each index,
/// interpolate the unit evaluation vector into the `i`-th Lagrange basis
/// polynomial and commit it non-hiding.
fn compute_lagrange_basis(srs: &Srs<FpPoint>, n: usize) -> (r: Vec<PolyComm<FpPoint>>)
    requires
        valid_domain_size(n as int),
        srs.g@.len() >= 1,
    ensures
        r@.len() == n,
        basis_view(r@) == computed_basis(srs.g@, n as int),
{
    let depth = srs.g.len();
    proof {
        crate::domain::lemma_valid_domain_size_pos(n as int);
        assert((n - 1) / (depth as int) <= n - 1) by (nonlinear_arith)
            requires
                depth >= 1,
                n >= 1,
        ;
    }
    let chunks: usize = (n - 1) / depth + 1;
    proof {
        vstd::arithmetic::div_mod::lemma_fundamental_div_mod(n as int - 1, depth as int);
        assert(chunks == basis_chunks(depth as int, n as int));
        assert(n <= chunks * depth) by (nonlinear_arith)
            requires
                depth >= 1,
                n >= 1,
                chunks as int == (n - 1) / (depth as int) + 1,
                n as int - 1 == depth * ((n as int - 1) / (depth as int)) + (n as int - 1) % (
                depth as int),
                0 <= (n as int - 1) % (depth as int) < depth,
        ;
    }
    let one = scalar_from_u64(1);
    let zero = scalar_from_u64(0);
    let mut out: Vec<PolyComm<FpPoint>> = Vec::new();
    let mut i: usize = 0;
    while i < n
        invariant
            valid_domain_size(n as int),
            depth == srs.g@.len(),
            depth >= 1,
            chunks >= 1,
            n <= chunks * depth,
            chunks == basis_chunks(depth as int, n as int),
            one == scalar_of_u64(1),
            zero == scalar_of_u64(0),
            i <= n,
            out@.len() == i,
            forall|q: int| 0 <= q < i ==> (#[trigger] out@[q]).elems@ == computed_basis(
                srs.g@,
                n as int,
            )[q],
        decreases n - i,
    {
        let mut evals: Vec<FpScalar> = Vec::new();
        let mut t: usize = 0;
        while t < n
            invariant
                t <= n,
                evals@.len() == t,
                one == scalar_of_u64(1),
                zero == scalar_of_u64(0),
                forall|u: int| 0 <= u < t ==> evals@[u] == unit_evals(n as int, i as int)[u],
            decreases n - t,
        {
            if t == i {
                evals.push(one);
            } else {
                evals.push(zero);
            }
            t = t + 1;
        }
        proof {
            assert(evals@ =~= unit_evals(n as int, i as int));
        }
        let coeffs = interpolate(evals, n);
        let c = commit_non_hiding(srs, &coeffs, chunks);
        out.push(c);
        i = i + 1;
    }
    proof {
        assert(basis_view(out@) =~= computed_basis(srs.g@, n as int));
    }
    out
}

/// What one Lagrange-basis request guarantees: the returned basis is the one
/// now cached under `n`, a fresh computation only when `n` was absent, and
/// no other entry nor the generators change.
pub open spec fn lagrange_request_post(
    pre: Srs<FpPoint>,
    post: Srs<FpPoint>,
    n: usize,
    out: Seq<Seq<FpPoint>>,
) -> bool {
    &&& post.h == pre.h
    &&& post.g@ == pre.g@
    &&& out.len() == n
    &&& post.has_basis(n)
    &&& out == post.basis_at(n)
    &&& (pre.has_basis(n) ==> post.lagrange_bases@ == pre.lagrange_bases@)
    &&& (!pre.has_basis(n) ==> out == computed_basis(pre.g@, n as int))
    &&& forall|m: usize|
        m != n ==> (#[trigger] post.lagrange_bases@.contains_key(m)
            <==> pre.lagrange_bases@.contains_key(m))
    &&& forall|m: usize|
        m != n && pre.lagrange_bases@.contains_key(m)
            ==> #[trigger] post.lagrange_bases@[m] == pre.lagrange_bases@[m]
}

/// Returns the Lagrange basis for the domain, computing and caching it at
/// most once per distinct size: a request for a cached size reads the cache
/// and changes nothing.
pub fn get_lagrange_basis(srs: &mut Srs<FpPoint>, domain: Domain) -> (r: Vec<PolyComm<FpPoint>>)
    requires
        domain.wf(),
        old(srs).g@.len() >= 1,
        old(srs).cache_wf(),
    ensures
        lagrange_request_post(*old(srs), *final(srs), domain.size, basis_view(r@)),
        r@.len() == domain.size,
        final(srs).cache_wf(),
{
    let n = domain.size;
    match srs.cached_basis(n) {
        Some(b) => {
            proof {
                assert(basis_view(b@) =~= srs.basis_at(n));
            }
            b
        },
        None => {
            let b = compute_lagrange_basis(srs, n);
            let out = copy_basis(&b);
            srs.set_lagrange_basis(n, b);
            out
        },
    }
}

/// Law: cache idempotence — two consecutive requests for one domain size
/// return the same basis, and the second changes nothing.
pub proof fn lemma_cache_idempotence(
    s0: Srs<FpPoint>,
    s1: Srs<FpPoint>,
    s2: Srs<FpPoint>,
    n: usize,
    out1: Seq<Seq<FpPoint>>,
    out2: Seq<Seq<FpPoint>>,
)
    requires
        lagrange_request_post(s0, s1, n, out1),
        lagrange_request_post(s1, s2, n, out2),
    ensures
        out2 == out1,
        s2.lagrange_bases@ == s1.lagrange_bases@,
{
}

/// The raw-size form of a basis request: fails with `InvalidDomainSize`
/// exactly when the size has no valid domain.
pub fn get_lagrange_basis_from_domain_size(srs: &mut Srs<FpPoint>, domain_size: usize) -> (r:
    Result<Vec<PolyComm<FpPoint>>, SrsError>)
    requires
        old(srs).g@.len() >= 1,
        old(srs).cache_wf(),
    ensures
        valid_domain_size(domain_size as int) <==> r is Ok,
        r matches Ok(b) ==> lagrange_request_post(
            *old(srs),
            *final(srs),
            domain_size,
            basis_view(b@),
        ) && b@.len() == domain_size,
        r matches Err(e) ==> e == SrsError::InvalidDomainSize && *final(srs) == *old(srs),
        final(srs).cache_wf(),
{
    match Domain::new(domain_size) {
        Ok(d) => Ok(get_lagrange_basis(srs, d)),
        Err(e) => Err(e),
    }
}

/// The `i`-th Lagrange-basis commitment for a domain size, computing the
/// basis first if it is absent.
pub fn lagrange_commitment(srs: &mut Srs<FpPoint>, domain_size: usize, i: usize) -> (r: Result<
    PolyComm<FpPoint>,
    SrsError,
>)
    requires
        old(srs).g@.len() >= 1,
        old(srs).cache_wf(),
        i < domain_size,
    ensures
        valid_domain_size(domain_size as int) <==> r is Ok,
        r matches Ok(c) ==> final(srs).has_basis(domain_size) && c.elems@ == final(srs).basis_at(
            domain_size,
        )[i as int] && lagrange_request_post(
            *old(srs),
            *final(srs),
            domain_size,
            final(srs).basis_at(domain_size),
        ),
        r matches Err(e) ==> e == SrsError::InvalidDomainSize && *final(srs) == *old(srs),
        final(srs).cache_wf(),
{
    match get_lagrange_basis_from_domain_size(srs, domain_size) {
        Ok(b) => Ok(copy_comm(&b[i])),
        Err(e) => Err(e),
    }
}

/// Forces computation and caching of the basis for domain size
/// `2^log2_size` without returning it, as a warm-up.
pub fn add_lagrange_basis(srs: &mut Srs<FpPoint>, log2_size: usize)
    requires
        log2_size <= MAX_LOG2_DOMAIN_SIZE,
        pow2(log2_size as nat) <= usize::MAX,
        old(srs).g@.len() >= 1,
        old(srs).cache_wf(),
    ensures
        lagrange_request_post(
            *old(srs),
            *final(srs),
            (pow2(log2_size as nat) as usize),
            final(srs).basis_at((pow2(log2_size as nat) as usize)),
        ),
        final(srs).cache_wf(),
{
    let size = pow2_usize(log2_size);
    proof {
        assert(log2_size as nat <= MAX_LOG2_DOMAIN_SIZE && size == pow2(log2_size as nat));
        assert(valid_domain_size(size as int));
    }
    let d = Domain { size };
    let _ = get_lagrange_basis(srs, d);
}

/// Exports the whole basis for a domain size into the handle registry for
/// bulk transfer: computes (or reads) the basis, stores it, and returns the
/// handle id under which it can be taken back exactly once.
pub fn lagrange_commitments_whole_domain_export(
    srs: &mut Srs<FpPoint>,
    table: &mut HandleTable<FpPoint>,
    domain_size: usize,
) -> (r: Result<usize, SrsError>)
    requires
        old(srs).g@.len() >= 1,
        old(srs).cache_wf(),
    ensures
        valid_domain_size(domain_size as int) <==> r is Ok,
        r matches Ok(id) ==> {
            &&& id == old(table).slots@.len()
            &&& final(table).slots@.len() == old(table).slots@.len() + 1
            &&& (final(table).slots@[id as int] matches Some(b) && basis_view(b@)
                == final(srs).basis_at(domain_size) && b@.len() == domain_size)
            &&& lagrange_request_post(
                *old(srs),
                *final(srs),
                domain_size,
                final(srs).basis_at(domain_size),
            )
        },
        r matches Err(e) ==> e == SrsError::InvalidDomainSize && *final(srs) == *old(srs)
            && *final(table) == *old(table),
        final(srs).cache_wf(),
{
    match get_lagrange_basis_from_domain_size(srs, domain_size) {
        Ok(b) => Ok(table.export_basis(b)),
        Err(e) => Err(e),
    }
}

} // verus!
