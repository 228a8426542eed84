//! Staged memory changes: kept in arrival order and applied to the live
//! process's memory only on commit.

use vstd::prelude::*;
use crate::process::{ProcessImage, region_in_bounds, write_at};

verus! {

/// One pending memory change.
pub struct StagedWrite {
    pub offset: u64,
    pub data: Vec<u8>,
}

impl StagedWrite {
    pub open spec fn view(&self) -> (int, Seq<u8>) {
        (self.offset as int, self.data@)
    }
}

/// `mem` after each write of `ws`, in order.
pub open spec fn apply_writes(mem: Seq<u8>, ws: Seq<(int, Seq<u8>)>) -> Seq<u8>
    decreases ws.len(),
{
    if ws.len() == 0 {
        mem
    } else {
        write_at(apply_writes(mem, ws.drop_last()), ws.last().0, ws.last().1)
    }
}

/// Every write of `ws` lies inside memory of `size` bytes.
pub open spec fn all_in_bounds(size: int, ws: Seq<(int, Seq<u8>)>) -> bool {
    forall|k: int| 0 <= k < ws.len() ==> region_in_bounds(size, #[trigger] ws[k].0, ws[k].1.len() as int)
}

/// Whether write `w` covers byte `i`.
pub open spec fn covers(w: (int, Seq<u8>), i: int) -> bool {
    w.0 <= i < w.0 + w.1.len()
}

/// The index of the last write of `ws` that covers byte `i`, or -1 where none does.
pub open spec fn last_writer(ws: Seq<(int, Seq<u8>)>, i: int) -> int
    decreases ws.len(),
{
    if ws.len() == 0 {
        -1
    } else if covers(ws.last(), i) {
        ws.len() - 1
    } else {
        last_writer(ws.drop_last(), i)
    }
}

/// Staged writes override each other by arrival order: after applying a
/// sequence of writes, each byte holds what the last write that covers it
/// wrote there, and bytes that no write covers are unchanged.
pub proof fn lemma_later_writes_win(mem: Seq<u8>, ws: Seq<(int, Seq<u8>)>, i: int)
    requires
        0 <= i < mem.len(),
    ensures
        apply_writes(mem, ws).len() == mem.len(),
        -1 <= last_writer(ws, i) < ws.len(),
        last_writer(ws, i) >= 0 ==> covers(ws[last_writer(ws, i)], i),
        apply_writes(mem, ws)[i] == if last_writer(ws, i) >= 0 {
            ws[last_writer(ws, i)].1[i - ws[last_writer(ws, i)].0]
        } else {
            mem[i]
        },
    decreases ws.len(),
{
    if ws.len() > 0 {
        lemma_later_writes_win(mem, ws.drop_last(), i);
        let k = last_writer(ws.drop_last(), i);
        if k >= 0 {
            assert(ws.drop_last()[k] == ws[k]);
        }
    }
}

/// The pending memory changes of one segment, in arrival order.
pub struct MemoryDiffer {
    staged: Vec<StagedWrite>,
}

impl MemoryDiffer {
    /// The staged writes, oldest first.
    pub closed spec fn view(&self) -> Seq<(int, Seq<u8>)> {
        self.staged@.map_values(|w: StagedWrite| w@)
    }

    pub fn new() -> (r: MemoryDiffer)
        ensures
            r@ == Seq::<(int, Seq<u8>)>::empty(),
    {
        let r = MemoryDiffer { staged: Vec::new() };
        assert(r@ =~= Seq::<(int, Seq<u8>)>::empty());
        r
    }

    /// Number of staged writes.
    pub fn len(&self) -> (r: usize)
        ensures
            r == self@.len(),
    {
        self.staged.len()
    }

    /// Records a pending write of `data` at `offset`, after all earlier ones.
    pub fn stage(&mut self, offset: u64, data: Vec<u8>)
        ensures
            final(self)@ == old(self)@.push((offset as int, data@)),
    {
        self.staged.push(StagedWrite { offset, data });
        assert(self@ =~= old(self)@.push((offset as int, data@)));
    }

    /// Discards every staged write without applying it.
    pub fn reset(&mut self)
        ensures
            final(self)@ == Seq::<(int, Seq<u8>)>::empty(),
    {
        self.staged.clear();
        assert(self@ =~= Seq::<(int, Seq<u8>)>::empty());
    }

    /// Applies every staged write to the process's memory, in arrival order,
    /// and clears the staging area. Where some write does not lie inside
    /// memory, nothing is applied, nothing is cleared, and the index of the
    /// first such write is returned.
    pub fn commit(&mut self, process: &mut ProcessImage) -> (r: Result<(), usize>)
        ensures
            r is Ok <==> all_in_bounds(old(process).memory().len() as int, old(self)@),
            r is Ok ==> {
                &&& final(process).memory() == apply_writes(old(process).memory(), old(self)@)
                &&& final(self)@ == Seq::<(int, Seq<u8>)>::empty()
            },
            r matches Err(k) ==> {
                &&& k < old(self)@.len()
                &&& !region_in_bounds(old(process).memory().len() as int, old(self)@[k as int].0, old(self)@[k as int].1.len() as int)
                &&& forall|j: int| 0 <= j < k ==> region_in_bounds(old(process).memory().len() as int, #[trigger] old(self)@[j].0, old(self)@[j].1.len() as int)
                &&& final(process).memory() == old(process).memory()
                &&& final(self)@ == old(self)@
            },
            final(process).descriptors() == old(process).descriptors(),
            final(process).threads() == old(process).threads(),
            final(process).wf() == old(process).wf(),
    {
        let size = process.memory_len();
        let mut k: usize = 0;
        while k < self.staged.len()
            invariant
                0 <= k <= self@.len(),
                self.staged@.len() == self@.len(),
                size == process.memory().len(),
                self@ == old(self)@,
                *process == *old(process),
                forall|j: int| 0 <= j < k ==> region_in_bounds(size as int, #[trigger] self@[j].0, self@[j].1.len() as int),
            decreases self@.len() - k,
        {
            let w = &self.staged[k];
            assert(self@[k as int] == w@);
            if w.offset as u128 > size as u128 || w.data.len() as u128 > size as u128 - w.offset as u128 {
                assert(!region_in_bounds(size as int, self@[k as int].0, self@[k as int].1.len() as int));
                return Err(k);
            }
            k += 1;
        }
        let mut k: usize = 0;
        while k < self.staged.len()
            invariant
                0 <= k <= self@.len(),
                self.staged@.len() == self@.len(),
                self@ == old(self)@,
                all_in_bounds(old(process).memory().len() as int, self@),
                process.memory() == apply_writes(old(process).memory(), self@.take(k as int)),
                process.descriptors() == old(process).descriptors(),
                process.threads() == old(process).threads(),
                process.wf() == old(process).wf(),
            decreases self@.len() - k,
        {
            let w = &self.staged[k];
            assert(self@[k as int] == w@);
            proof {
                lemma_apply_writes_len(old(process).memory(), self@.take(k as int));
            }
            assert(region_in_bounds(process.memory().len() as int, self@[k as int].0, self@[k as int].1.len() as int));
            let r = process.write_memory(w.offset, &w.data);
            assert(r is Ok);
            assert(self@.take(k + 1).drop_last() =~= self@.take(k as int));
            k += 1;
        }
        assert(self@.take(self@.len() as int) =~= self@);
        self.reset();
        Ok(())
    }
}

/// Applying writes never changes the size of memory.
pub proof fn lemma_apply_writes_len(mem: Seq<u8>, ws: Seq<(int, Seq<u8>)>)
    ensures
        apply_writes(mem, ws).len() == mem.len(),
    decreases ws.len(),
{
    if ws.len() > 0 {
        lemma_apply_writes_len(mem, ws.drop_last());
    }
}

} // verus!
