use vstd::prelude::*;
use std::collections::HashMap;

verus! {

broadcast use vstd::std_specs::hash::group_hash_axioms;

/// A polynomial commitment: an ordered sequence of one or more group
/// elements. A polynomial longer than the SRS depth is committed in chunks,
/// one group element per chunk; the non-hiding variant used throughout this
/// library carries no blinding term.
pub struct PolyComm<G> {
    pub elems: Vec<G>,
}

/// The group elements of a whole basis, commitment by commitment.
pub open spec fn basis_view<G>(b: Seq<PolyComm<G>>) -> Seq<Seq<G>> {
    b.map_values(|c: PolyComm<G>| c.elems@)
}

/// The structured reference string: the blinding generator `h`, the ordered
/// generator sequence `g` whose length ("depth") is fixed at creation, and
/// the memoized per-domain-size Lagrange-basis cache. After construction
/// only the cache mutates, and only by gaining entries.
pub struct Srs<G> {
    pub h: G,
    pub g: Vec<G>,
    pub lagrange_bases: HashMap<usize, Vec<PolyComm<G>>>,
}

impl<G> Srs<G> {
    /// Whether the basis for domain size `n` has been computed or installed.
    pub open spec fn has_basis(self, n: usize) -> bool {
        self.lagrange_bases@.contains_key(n)
    }

    /// The cached basis for domain size `n`, as group elements.
    pub open spec fn basis_at(self, n: usize) -> Seq<Seq<G>> {
        basis_view(self.lagrange_bases@[n]@)
    }

    /// Every cache entry maps a domain size to a basis with one commitment
    /// per domain point.
    pub open spec fn cache_wf(self) -> bool {
        forall|n: usize|
            self.lagrange_bases@.contains_key(n) ==> (#[trigger] self.lagrange_bases@[n])@.len()
                == n
    }

    /// The transport layout: `h` followed by all of `g`, in that order.
    pub open spec fn flat_view(self) -> Seq<G> {
        seq![self.h] + self.g@
    }
}

/// Copies a vector of group elements element by element.
pub fn copy_vec<G: Copy>(v: &Vec<G>) -> (r: Vec<G>)
    ensures
        r@ == v@,
{
    let mut out: Vec<G> = Vec::new();
    let mut i: usize = 0;
    while i < v.len()
        invariant
            i <= v@.len(),
            out@ == v@.take(i as int),
        decreases v@.len() - i,
    {
        out.push(v[i]);
        proof {
            assert(v@.take(i as int).push(v@[i as int]) =~= v@.take(i as int + 1));
        }
        i = i + 1;
    }
    proof {
        assert(v@.take(v@.len() as int) =~= v@);
    }
    out
}

/// Copies one commitment.
pub fn copy_comm<G: Copy>(c: &PolyComm<G>) -> (r: PolyComm<G>)
    ensures
        r.elems@ == c.elems@,
{
    PolyComm { elems: copy_vec(&c.elems) }
}

/// Copies a whole basis, commitment by commitment.
pub fn copy_basis<G: Copy>(v: &Vec<PolyComm<G>>) -> (r: Vec<PolyComm<G>>)
    ensures
        r@.len() == v@.len(),
        basis_view(r@) == basis_view(v@),
{
    let mut out: Vec<PolyComm<G>> = Vec::new();
    let mut i: usize = 0;
    while i < v.len()
        invariant
            i <= v@.len(),
            out@.len() == i,
            forall|j: int| 0 <= j < i ==> (#[trigger] out@[j]).elems@ == v@[j].elems@,
        decreases v@.len() - i,
    {
        out.push(copy_comm(&v[i]));
        i = i + 1;
    }
    proof {
        assert(basis_view(out@) =~= basis_view(v@));
    }
    out
}

impl<G: Copy> Srs<G> {
    /// Reconstructs an SRS from the transport layout `h` followed by `g`,
    /// with an empty cache regardless of any cache state on the source side.
    pub fn from_flat(flat: Vec<G>) -> (r: Srs<G>)
        requires
            flat@.len() >= 1,
        ensures
            r.h == flat@[0],
            r.g@ == flat@.skip(1),
            r.lagrange_bases@ == Map::<usize, Vec<PolyComm<G>>>::empty(),
            r.cache_wf(),
    {
        let ghost orig = flat@;
        let mut rest = flat;
        let h = rest.remove(0);
        proof {
            assert(orig.remove(0) =~= orig.skip(1));
        }
        Srs { h, g: rest, lagrange_bases: HashMap::new() }
    }

    /// Exports the transport layout: `h` followed by all of `g`.
    pub fn to_flat(&self) -> (r: Vec<G>)
        ensures
            r@ == self.flat_view(),
            r@.len() == 1 + self.g@.len(),
    {
        let mut out: Vec<G> = Vec::new();
        out.push(self.h);
        let mut i: usize = 0;
        while i < self.g.len()
            invariant
                i <= self.g@.len(),
                out@ == seq![self.h] + self.g@.take(i as int),
            decreases self.g@.len() - i,
        {
            out.push(self.g[i]);
            proof {
                assert((seq![self.h] + self.g@.take(i as int)).push(self.g@[i as int]) =~= seq![
                    self.h,
                ] + self.g@.take(i as int + 1));
            }
            i = i + 1;
        }
        proof {
            assert(self.g@.take(self.g@.len() as int) =~= self.g@);
        }
        out
    }

    /// The depth: the fixed number of generators in `g`.
    pub fn depth(&self) -> (r: usize)
        ensures
            r == self.g@.len(),
    {
        self.g.len()
    }

    /// The blinding generator.
    pub fn blinding(&self) -> (r: G)
        ensures
            r == self.h,
    {
        self.h
    }

    /// Whether the basis for domain size `n` is already cached. Never
    /// triggers computation.
    pub fn contains_basis(&self, n: usize) -> (r: bool)
        ensures
            r == self.has_basis(n),
    {
        self.lagrange_bases.contains_key(&n)
    }

    /// Installs an externally supplied basis under `n` if no entry exists
    /// yet for that key; an existing entry is kept (first writer wins).
    pub fn set_lagrange_basis(&mut self, n: usize, basis: Vec<PolyComm<G>>)
        requires
            basis@.len() == n,
            old(self).cache_wf(),
        ensures
            final(self).h == old(self).h,
            final(self).g@ == old(self).g@,
            old(self).has_basis(n) ==> final(self).lagrange_bases@ == old(self).lagrange_bases@,
            !old(self).has_basis(n) ==> final(self).lagrange_bases@ == old(
                self,
            ).lagrange_bases@.insert(n, basis),
            final(self).has_basis(n),
            final(self).cache_wf(),
    {
        if !self.lagrange_bases.contains_key(&n) {
            self.lagrange_bases.insert(n, basis);
        }
    }

    /// Returns the `i`-th commitment of the basis for `n` only if that basis
    /// is already cached; absent otherwise. Never triggers computation.
    pub fn maybe_lagrange_commitment(&self, n: usize, i: usize) -> (r: Option<PolyComm<G>>)
        ensures
            match r {
                Some(c) => self.has_basis(n) && i < self.basis_at(n).len() && c.elems@
                    == self.basis_at(n)[i as int],
                None => !self.has_basis(n) || i >= self.basis_at(n).len(),
            },
    {
        match self.lagrange_bases.get(&n) {
            None => None,
            Some(basis) => {
                if i < basis.len() {
                    Some(copy_comm(&basis[i]))
                } else {
                    None
                }
            },
        }
    }

    /// A copy of the cached basis for `n`, if present. Never triggers
    /// computation.
    pub fn cached_basis(&self, n: usize) -> (r: Option<Vec<PolyComm<G>>>)
        ensures
            match r {
                Some(b) => self.has_basis(n) && b@.len() == self.basis_at(n).len() && basis_view(
                    b@,
                ) == self.basis_at(n),
                None => !self.has_basis(n),
            },
    {
        match self.lagrange_bases.get(&n) {
            None => None,
            Some(basis) => Some(copy_basis(basis)),
        }
    }
}

/// Law: transport round trip — rebuilding an SRS from the exported layout
/// (`h` followed by `g`) reproduces `h` and `g` exactly; only the cache
/// state is left behind.
pub proof fn lemma_transport_round_trip<G>(s: Srs<G>, t: Srs<G>)
    requires
        t.h == s.flat_view()[0],
        t.g@ == s.flat_view().skip(1),
    ensures
        t.h == s.h,
        t.g@ == s.g@,
{
    assert(s.flat_view().skip(1) =~= s.g@);
}

} // verus!
