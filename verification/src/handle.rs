use vstd::prelude::*;
use crate::srs::PolyComm;

verus! {

/// An opaque-handle registry for bulk basis transfer across an execution
/// boundary. Exporting a basis allocates a handle id and stores the vector
/// in the table; a matching take removes and returns the entry exactly once,
/// and fails if the handle is unknown or already consumed.
pub struct HandleTable<G> {
    pub slots: Vec<Option<Vec<PolyComm<G>>>>,
}

impl<G> HandleTable<G> {
    /// An empty registry.
    pub fn new() -> (r: HandleTable<G>)
        ensures
            r.slots@ == Seq::<Option<Vec<PolyComm<G>>>>::empty(),
    {
        HandleTable { slots: Vec::new() }
    }

    /// Stores a basis and hands out the id under which it can be taken back
    /// exactly once.
    pub fn export_basis(&mut self, basis: Vec<PolyComm<G>>) -> (id: usize)
        ensures
            final(self).slots@ == old(self).slots@.push(Some(basis)),
            id == old(self).slots@.len(),
    {
        let id = self.slots.len();
        self.slots.push(Some(basis));
        id
    }

    /// Removes and returns the entry under `id`. Absent when the id was
    /// never handed out or its entry was already consumed; the table is then
    /// unchanged.
    pub fn take_basis(&mut self, id: usize) -> (r: Option<Vec<PolyComm<G>>>)
        ensures
            match r {
                Some(b) => id < old(self).slots@.len() && old(self).slots@[id as int] == Some(b)
                    && final(self).slots@ == old(self).slots@.update(id as int, None),
                None => (id >= old(self).slots@.len() || old(self).slots@[id as int] is None)
                    && final(self).slots@ == old(self).slots@,
            },
    {
        if id < self.slots.len() {
            let slot = &mut self.slots[id];
            let r = slot.take();
            proof {
                if r is None {
                    assert(old(self).slots@.update(id as int, Option::None) =~= old(self).slots@);
                }
            }
            r
        } else {
            None
        }
    }
}

} // verus!
