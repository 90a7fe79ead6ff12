//! The record of which splits a run has taken, so that each is taken once.
use vstd::prelude::*;
use crate::memory::bytes_eq;

verus! {

/// The keys of the splits taken in the current run.
pub struct SplitRecord {
    completed: Vec<Vec<u8>>,
}

impl View for SplitRecord {
    type V = Set<Seq<u8>>;

    closed spec fn view(&self) -> Set<Seq<u8>> {
        self.completed@.map_values(|k: Vec<u8>| k@).to_set()
    }
}

impl SplitRecord {
    /// A record of a run with no split taken.
    pub fn new() -> (r: SplitRecord)
        ensures
            r@ == Set::<Seq<u8>>::empty(),
    {
        let r = SplitRecord { completed: Vec::new() };
        assert(r@ =~= Set::<Seq<u8>>::empty());
        r
    }

    /// Forgets every split, for a new run.
    pub fn clear(&mut self)
        ensures
            final(self)@ == Set::<Seq<u8>>::empty(),
    {
        self.completed = Vec::new();
        assert(self@ =~= Set::<Seq<u8>>::empty());
    }

    /// Whether the split `key` was taken.
    pub fn contains(&self, key: &[u8]) -> (r: bool)
        ensures
            r == self@.contains(key@),
    {
        let ghost ks = self.completed@.map_values(|k: Vec<u8>| k@);
        let mut i: usize = 0;
        while i < self.completed.len()
            invariant
                i <= self.completed@.len(),
                ks == self.completed@.map_values(|k: Vec<u8>| k@),
                forall|j: int| 0 <= j < i ==> ks[j] != key@,
            decreases self.completed@.len() - i,
        {
            if bytes_eq(self.completed[i].as_slice(), key) {
                assert(ks[i as int] == key@);
                assert(ks.contains(key@));
                return true;
            }
            i = i + 1;
        }
        assert(!ks.contains(key@));
        false
    }

    /// Decides on the split `key`, whose setting reads `enabled` (`None`
    /// where it is unknown or not a boolean): it is taken, and recorded,
    /// exactly when it is enabled and was not taken before in this run.
    pub fn try_split(&mut self, key: &[u8], enabled: Option<bool>) -> (r: bool)
        ensures
            r == (enabled == Some(true) && !old(self)@.contains(key@)),
            final(self)@ == if r {
                old(self)@.insert(key@)
            } else {
                old(self)@
            },
    {
        if self.contains(key) {
            return false;
        }
        match enabled {
            Some(true) => {
                let ghost before = self.completed@.map_values(|k: Vec<u8>| k@);
                self.completed.push(crate::memory::copy_bytes(key));
                proof {
                    let after = self.completed@.map_values(|k: Vec<u8>| k@);
                    assert(after =~= before.push(key@));
                    before.lemma_push_to_set_commute(key@);
                    assert(after.to_set() =~= before.to_set().insert(key@));
                }
                true
            },
            _ => false,
        }
    }
}

} // verus!
