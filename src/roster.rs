//! Bookkeeping of the logical threads spawned in the current segment.

use vstd::prelude::*;
use crate::idset::IdSet;

verus! {

/// The threads considered live; not a scheduler.
pub struct ThreadRoster {
    threads: IdSet,
}

impl ThreadRoster {
    pub closed spec fn view(&self) -> Set<u32> {
        self.threads@
    }

    pub closed spec fn wf(&self) -> bool {
        self.threads.wf()
    }

    pub fn new() -> (r: ThreadRoster)
        ensures
            r.wf(),
            r@ == Set::<u32>::empty(),
    {
        ThreadRoster { threads: IdSet::new() }
    }

    pub fn record_spawn(&mut self, id: u32)
        requires
            old(self).wf(),
        ensures
            final(self).wf(),
            final(self)@ == old(self)@.insert(id),
    {
        self.threads.insert(id);
    }

    /// Removes `id`; the result tells whether it was known, so that an exit
    /// of an unknown thread can be reported without failing.
    pub fn record_exit(&mut self, id: u32) -> (known: bool)
        requires
            old(self).wf(),
        ensures
            final(self).wf(),
            final(self)@ == old(self)@.remove(id),
            known == old(self)@.contains(id),
    {
        self.threads.remove(id)
    }

    pub fn is_live(&self, id: u32) -> (r: bool)
        ensures
            r == self@.contains(id),
    {
        self.threads.contains(id)
    }

    /// Empties the roster.
    pub fn reset(&mut self)
        ensures
            final(self).wf(),
            final(self)@ == Set::<u32>::empty(),
    {
        self.threads.clear();
    }

    /// The live threads, in an unspecified order.
    pub fn live_threads(&self) -> (r: Vec<u32>)
        requires
            self.wf(),
        ensures
            r@.to_set() == self@,
            r@.no_duplicates(),
    {
        self.threads.to_vec()
    }
}

} // verus!
