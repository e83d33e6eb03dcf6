//! Address-keyed store of the last known replica of each sequence.
use vstd::prelude::*;
use crate::sequence::{Replica, SeqAddress};

verus! {

/// The replica cache: one snapshot per address, last writer wins.
pub struct ReplicaCache {
    slots: Vec<(SeqAddress, Replica)>,
    contents: Ghost<Map<SeqAddress, Replica>>,
}

impl View for ReplicaCache {
    type V = Map<SeqAddress, Replica>;

    closed spec fn view(&self) -> Map<SeqAddress, Replica> {
        self.contents@
    }
}

/// Whether two addresses are the same.
pub fn same_address(a: &SeqAddress, b: &SeqAddress) -> (r: bool)
    ensures
        r == (*a == *b),
{
    if a.tag != b.tag || a.private != b.private {
        return false;
    }
    let mut i: usize = 0;
    while i < 32
        invariant
            i <= 32,
            forall|j: int| 0 <= j < i ==> a.name[j] == b.name[j],
        decreases 32 - i,
    {
        if a.name[i] != b.name[i] {
            return false;
        }
        i = i + 1;
    }
    assert(a.name@ =~= b.name@);
    proof {
        broadcast use vstd::array::group_array_axioms;
        assert(a.name == b.name);
    }
    true
}

impl ReplicaCache {
    /// The cache's invariant: the slots hold each address once, and hold
    /// exactly the snapshots of the map.
    pub closed spec fn wf(&self) -> bool {
        &&& forall|i: int, j: int| 0 <= i < j < self.slots@.len() ==> self.slots@[i].0 != self.slots@[j].0
        &&& forall|i: int| 0 <= i < self.slots@.len() ==>
            #[trigger] self.contents@.contains_key(self.slots@[i].0)
            && self.contents@[self.slots@[i].0] == self.slots@[i].1
        &&& forall|a: SeqAddress| #[trigger] self.contents@.contains_key(a) ==>
            exists|i: int| 0 <= i < self.slots@.len() && self.slots@[i].0 == a
    }

    /// An empty cache.
    pub fn new() -> (r: ReplicaCache)
        ensures
            r.wf(),
            r@ == Map::<SeqAddress, Replica>::empty(),
    {
        ReplicaCache { slots: Vec::new(), contents: Ghost(Map::empty()) }
    }

    /// The slot that holds `a`, if any.
    fn find(&self, a: &SeqAddress) -> (r: Option<usize>)
        requires
            self.wf(),
        ensures
            match r {
                Some(i) => i < self.slots@.len() && self.slots@[i as int].0 == *a,
                None => !self@.contains_key(*a),
            },
    {
        let mut i: usize = 0;
        while i < self.slots.len()
            invariant
                self.wf(),
                i <= self.slots@.len(),
                forall|j: int| 0 <= j < i ==> self.slots@[j].0 != *a,
            decreases self.slots@.len() - i,
        {
            if same_address(&self.slots[i].0, a) {
                return Some(i);
            }
            i = i + 1;
        }
        None
    }

    /// The snapshot stored for `a`, if any; it may be stale.
    pub fn get(&self, a: &SeqAddress) -> (r: Option<Replica>)
        requires
            self.wf(),
        ensures
            r == if self@.contains_key(*a) { Some(self@[*a]) } else { None::<Replica> },
    {
        match self.find(a) {
            Some(i) => {
                let rep = &self.slots[i].1;
                Some(Replica { data: rep.data.clone(), room: rep.room })
            },
            None => None,
        }
    }

    /// Stores `d` for `a`, replacing what was there.
    pub fn put(&mut self, a: SeqAddress, d: Replica)
        requires
            old(self).wf(),
        ensures
            final(self).wf(),
            final(self)@ == old(self)@.insert(a, d),
    {
        let ghost before = self.slots@;
        match self.find(&a) {
            Some(i) => {
                self.slots.set(i, (a, d));
                self.contents = Ghost(self.contents@.insert(a, d));
                assert forall|b: SeqAddress| #[trigger] self.contents@.contains_key(b) implies
                    exists|k: int| 0 <= k < self.slots@.len() && self.slots@[k].0 == b by {
                    if b != a {
                        let k = choose|k: int| 0 <= k < before.len() && before[k].0 == b;
                        assert(self.slots@[k].0 == b);
                    } else {
                        assert(self.slots@[i as int].0 == b);
                    }
                }
            },
            None => {
                self.slots.push((a, d));
                self.contents = Ghost(self.contents@.insert(a, d));
                assert forall|b: SeqAddress| #[trigger] self.contents@.contains_key(b) implies
                    exists|k: int| 0 <= k < self.slots@.len() && self.slots@[k].0 == b by {
                    if b != a {
                        let k = choose|k: int| 0 <= k < before.len() && before[k].0 == b;
                        assert(self.slots@[k].0 == b);
                    } else {
                        assert(self.slots@[before.len() as int].0 == b);
                    }
                }
            },
        }
    }

    /// Drops what is stored for `a`; a later `get` misses.
    pub fn remove(&mut self, a: &SeqAddress)
        requires
            old(self).wf(),
        ensures
            final(self).wf(),
            final(self)@ == old(self)@.remove(*a),
    {
        let ghost before = self.slots@;
        let ghost old_contents = self.contents@;
        assert(forall|x: int, y: int| 0 <= x < y < before.len() ==> before[x].0 != before[y].0);
        assert(forall|x: int| 0 <= x < before.len() ==>
            #[trigger] old_contents.contains_key(before[x].0) && old_contents[before[x].0] == before[x].1);
        match self.find(a) {
            Some(i) => {
                let _ = self.slots.remove(i);
                self.contents = Ghost(self.contents@.remove(*a));
                assert forall|x: int, y: int| 0 <= x < y < self.slots@.len() implies
                    self.slots@[x].0 != self.slots@[y].0 by {
                    let xb = if x < i { x } else { x + 1 };
                    let yb = if y < i { y } else { y + 1 };
                    assert(self.slots@[x] == before[xb]);
                    assert(self.slots@[y] == before[yb]);
                }
                assert forall|x: int| 0 <= x < self.slots@.len() implies
                    #[trigger] self.contents@.contains_key(self.slots@[x].0)
                    && self.contents@[self.slots@[x].0] == self.slots@[x].1 by {
                    let xb = if x < i { x } else { x + 1 };
                    assert(self.slots@[x] == before[xb]);
                    if xb < i {
                        assert(before[xb].0 != before[i as int].0);
                    } else {
                        assert(before[i as int].0 != before[xb].0);
                    }
                    assert(old_contents.contains_key(before[xb].0));
                }
                assert forall|b: SeqAddress| #[trigger] self.contents@.contains_key(b) implies
                    exists|k: int| 0 <= k < self.slots@.len() && self.slots@[k].0 == b by {
                    let k = choose|k: int| 0 <= k < before.len() && before[k].0 == b;
                    assert(k != i);
                    if k < i {
                        assert(self.slots@[k].0 == b);
                    } else {
                        assert(self.slots@[k - 1].0 == b);
                    }
                }
            },
            None => {
                assert(self.contents@.remove(*a) =~= self.contents@);
            },
        }
    }
}

} // verus!
