//! A small finite set of numeric identifiers (descriptors, thread ids).

use vstd::prelude::*;

verus! {

/// A finite set of `u32` identifiers kept as a duplicate-free vector.
pub struct IdSet {
    items: Vec<u32>,
}

impl IdSet {
    /// The identifiers held.
    pub closed spec fn view(&self) -> Set<u32> {
        self.items@.to_set()
    }

    /// No identifier is stored twice.
    pub closed spec fn wf(&self) -> bool {
        self.items@.no_duplicates()
    }

    pub fn new() -> (r: IdSet)
        ensures
            r.wf(),
            r@ == Set::<u32>::empty(),
    {
        let r = IdSet { items: Vec::new() };
        assert(r@ =~= Set::<u32>::empty());
        r
    }

    pub fn contains(&self, id: u32) -> (r: bool)
        ensures
            r == self@.contains(id),
    {
        let mut i: usize = 0;
        while i < self.items.len()
            invariant
                0 <= i <= self.items@.len(),
                forall|j: int| 0 <= j < i ==> self.items@[j] != id,
            decreases self.items@.len() - i,
        {
            if self.items[i] == id {
                assert(self.items@.to_set().contains(self.items@[i as int]));
                return true;
            }
            i += 1;
        }
        assert(!self.items@.contains(id));
        false
    }

    /// Adds `id`; a no-op where it is already present.
    pub fn insert(&mut self, id: u32)
        requires
            old(self).wf(),
        ensures
            final(self).wf(),
            final(self)@ == old(self)@.insert(id),
    {
        if !self.contains(id) {
            proof {
                assert(!self.items@.contains(id));
            }
            self.items.push(id);
            proof {
                assert(self.items@.to_set() =~= old(self).items@.to_set().insert(id)) by {
                    assert(forall|x: u32| #[trigger] self.items@.contains(x) <==> (old(self).items@.contains(x) || x == id)) by {
                        assert forall|x: u32| #[trigger] self.items@.contains(x) implies (old(self).items@.contains(x) || x == id) by {
                            let k = choose|k: int| 0 <= k < self.items@.len() && self.items@[k] == x;
                            if k < old(self).items@.len() {
                                assert(old(self).items@[k] == x);
                            }
                        }
                        assert forall|x: u32| (old(self).items@.contains(x) || x == id) implies #[trigger] self.items@.contains(x) by {
                            if x == id {
                                assert(self.items@[self.items@.len() - 1] == x);
                            } else {
                                let k = choose|k: int| 0 <= k < old(self).items@.len() && old(self).items@[k] == x;
                                assert(self.items@[k] == x);
                            }
                        }
                    }
                }
            }
        } else {
            proof {
                assert(self.items@.to_set() =~= old(self).items@.to_set().insert(id));
            }
        }
    }

    /// Removes `id`, and tells whether it was present.
    pub fn remove(&mut self, id: u32) -> (was_present: bool)
        requires
            old(self).wf(),
        ensures
            final(self).wf(),
            final(self)@ == old(self)@.remove(id),
            was_present == old(self)@.contains(id),
    {
        let mut i: usize = 0;
        while i < self.items.len()
            invariant
                self.items@ == old(self).items@,
                old(self).wf(),
                0 <= i <= self.items@.len(),
                forall|j: int| 0 <= j < i ==> self.items@[j] != id,
            decreases self.items@.len() - i,
        {
            if self.items[i] == id {
                let ghost before = self.items@;
                self.items.swap_remove(i);
                proof {
                    assert(before[i as int] == id);
                    assert(before.no_duplicates());
                    assert(before.to_set().contains(id));
                    assert forall|x: u32| #[trigger] self.items@.contains(x) <==> (before.contains(x) && x != id) by {
                        if self.items@.contains(x) {
                            let k = choose|k: int| 0 <= k < self.items@.len() && self.items@[k] == x;
                            if k == i {
                                assert(before[before.len() - 1] == x);
                                assert(before.len() - 1 != i);
                                assert(x != id);
                            } else {
                                assert(before[k] == x);
                                assert(x != id);
                            }
                        }
                        if before.contains(x) && x != id {
                            let k = choose|k: int| 0 <= k < before.len() && before[k] == x;
                            if k == before.len() - 1 {
                                if (i as int) < before.len() - 1 {
                                    assert(self.items@[i as int] == x);
                                }
                            } else {
                                assert(k != i);
                                assert(self.items@[k] == x);
                            }
                        }
                    }
                    assert(self.items@.to_set() =~= before.to_set().remove(id));
                    assert(self.items@.no_duplicates()) by {
                        assert forall|a: int, b: int| 0 <= a < self.items@.len() && 0 <= b < self.items@.len() && a != b implies self.items@[a] != self.items@[b] by {
                            let ia = if a == i { before.len() - 1 } else { a };
                            let ib = if b == i { before.len() - 1 } else { b };
                            assert(self.items@[a] == before[ia]);
                            assert(self.items@[b] == before[ib]);
                        }
                    }
                }
                return true;
            }
            i += 1;
        }
        proof {
            assert(!self.items@.contains(id));
            assert(self.items@.to_set() =~= old(self).items@.to_set().remove(id));
        }
        false
    }

    /// Empties the set.
    pub fn clear(&mut self)
        ensures
            final(self).wf(),
            final(self)@ == Set::<u32>::empty(),
    {
        self.items.clear();
        proof {
            assert(self.items@.to_set() =~= Set::<u32>::empty());
        }
    }

    /// The identifiers, in an unspecified order.
    pub fn to_vec(&self) -> (r: Vec<u32>)
        requires
            self.wf(),
        ensures
            r@.to_set() == self@,
            r@.no_duplicates(),
    {
        self.items.clone()
    }
}

} // verus!
