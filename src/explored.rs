use vstd::prelude::*;
use crate::chunk::ChunkCoord;

verus! {

/// The chunks a viewer has ever stood in; entries are added, never removed.
pub struct ExploredChunks {
    coords: Vec<ChunkCoord>,
}

impl View for ExploredChunks {
    type V = Set<ChunkCoord>;

    closed spec fn view(&self) -> Set<ChunkCoord> {
        self.coords@.to_set()
    }
}

impl ExploredChunks {
    pub closed spec fn wf(&self) -> bool {
        self.coords@.no_duplicates()
    }

    pub fn new() -> (r: ExploredChunks)
        ensures
            r.wf(),
            r@ == Set::<ChunkCoord>::empty(),
    {
        let r = ExploredChunks { coords: Vec::new() };
        proof {
            assert(r@ =~= Set::<ChunkCoord>::empty());
        }
        r
    }

    /// Whether the chunk has been visited.
    pub fn is_explored(&self, c: ChunkCoord) -> (r: bool)
        ensures
            r == self@.contains(c),
    {
        let mut i: usize = 0;
        while i < self.coords.len()
            invariant
                i <= self.coords@.len(),
                forall|k: int| 0 <= k < i ==> self.coords@[k] != c,
            decreases self.coords@.len() - i,
        {
            if self.coords[i] == c {
                proof {
                    assert(self.coords@.contains(c));
                }
                return true;
            }
            i = i + 1;
        }
        false
    }

    /// Records a visit; visiting the same chunk again changes nothing.
    pub fn mark_visited(&mut self, c: ChunkCoord)
        requires
            old(self).wf(),
        ensures
            final(self).wf(),
            final(self)@ == old(self)@.insert(c),
    {
        if !self.is_explored(c) {
            self.coords.push(c);
            proof {
                assert(self.coords@.no_duplicates());
                old(self).coords@.lemma_push_to_set_commute(c);
            }
        } else {
            proof {
                assert(self@ =~= old(self)@.insert(c));
            }
        }
    }

    /// How many distinct chunks have been visited.
    pub fn len(&self) -> (r: usize)
        requires
            self.wf(),
        ensures
            r == self@.len(),
    {
        proof {
            self.coords@.unique_seq_to_set();
        }
        self.coords.len()
    }
}

} // verus!
