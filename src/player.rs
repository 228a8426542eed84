//! The replay engine: feeds journal entries, in order, into the ethereal
//! bookkeeping and the live process.

use vstd::prelude::*;
use crate::differ::{MemoryDiffer, all_in_bounds, apply_writes};
use crate::process::write_at;
use crate::entry::{EntryKind, ErrorKind, JournalEntry, ReplayError};
use crate::idset::IdSet;
use crate::model::{
    Applied, PlayerModel, PlayerState, cleared, collect, fresh, lemma_failed_prefix,
    lemma_take_step, replay, replay_collect, step, step_error, step_result,
};
use crate::process::ProcessImage;
use crate::registry::DescriptorRegistry;
use crate::roster::ThreadRoster;
use crate::stdio::StdioAccumulator;

verus! {

/// One replay session, owning the live process it rebuilds.
pub struct JournalSyscallPlayer {
    state: PlayerState,
    position: u64,
    registry: DescriptorRegistry,
    stdio: StdioAccumulator,
    spawn_threads: ThreadRoster,
    staged_differ_memory: MemoryDiffer,
    open_fds: IdSet,
    process: ProcessImage,
}

impl JournalSyscallPlayer {
    pub closed spec fn view(&self) -> PlayerModel {
        PlayerModel {
            state: self.state,
            position: self.position,
            stdout_fds: self.registry@.0,
            stderr_fds: self.registry@.1,
            stdout: self.stdio@.0,
            stderr: self.stdio@.1,
            threads: self.spawn_threads@,
            open_fds: self.open_fds@,
            memory: self.process.memory(),
            descriptors: self.process.descriptors(),
            spawned: self.process.threads(),
        }
    }

    /// The components are well formed, and no memory write is left staged
    /// between entries.
    pub closed spec fn wf(&self) -> bool {
        &&& self.registry.wf()
        &&& self.spawn_threads.wf()
        &&& self.open_fds.wf()
        &&& self.process.wf()
        &&& self.staged_differ_memory@ == Seq::<(int, Seq<u8>)>::empty()
    }

    /// A session over `process`, with every ethereal component at its baseline.
    pub fn new(process: ProcessImage) -> (r: JournalSyscallPlayer)
        requires
            process.wf(),
        ensures
            r.wf(),
            r@ == fresh(process.memory(), process.descriptors(), process.threads()),
    {
        JournalSyscallPlayer {
            state: PlayerState::Idle,
            position: 0,
            registry: DescriptorRegistry::new(),
            stdio: StdioAccumulator::new(),
            spawn_threads: ThreadRoster::new(),
            staged_differ_memory: MemoryDiffer::new(),
            open_fds: IdSet::new(),
            process,
        }
    }

    /// Handles the reset control entry: empties the thread roster, both
    /// stdio buffers, the segment's open descriptors and the differential
    /// collector; puts the registry back to descriptor 1 for output and 2
    /// for error; discards any staged memory write without applying it.
    /// Memory itself is durable and stays as it is.
    pub fn clear_ethereal(&mut self, differ_ethereal: Option<&mut Vec<JournalEntry>>)
        requires
            old(self).wf(),
        ensures
            final(self).wf(),
            final(self)@ == cleared(old(self)@),
            differ_ethereal matches Some(c) ==> final(c)@ == Seq::<JournalEntry>::empty(),
    {
        self.spawn_threads.reset();
        self.stdio.reset();
        self.registry.reset();
        self.open_fds.clear();
        match differ_ethereal {
            Some(c) => {
                c.clear();
            },
            None => {},
        }
        self.staged_differ_memory.reset();
    }

    fn fail(&mut self, entry: EntryKind, kind: ErrorKind) -> (r: ReplayError)
        requires
            old(self).wf(),
        ensures
            final(self).wf(),
            final(self)@ == (PlayerModel { state: PlayerState::Failed, ..old(self)@ }),
            r == (ReplayError { position: old(self)@.position, entry, kind }),
    {
        self.state = PlayerState::Failed;
        ReplayError { position: self.position, entry, kind }
    }

    /// Feeds one entry, mirroring it into `collector` where it is ethereal.
    pub fn apply_collecting(&mut self, entry: JournalEntry, collector: &mut Vec<JournalEntry>) -> (r:
        Result<Applied, ReplayError>)
        requires
            old(self).wf(),
        ensures
            final(self).wf(),
            final(self)@ == step(old(self)@, entry),
            r is Ok <==> step_result(old(self)@, entry) is Ok,
            r matches Ok(a) ==> step_result(old(self)@, entry) == Ok::<Applied, ErrorKind>(a),
            r matches Err(e) ==> e == step_error(old(self)@, entry),
            final(collector)@ == collect(old(collector)@, old(self)@, entry),
    {
        let kind = entry.kind();
        if self.state == PlayerState::Failed {
            return Err(self.fail(kind, ErrorKind::InvalidStateTransition));
        }
        let mut note = Applied::Done;
        match &entry {
            JournalEntry::DescriptorOpened { fd, kind } => {
                self.open_fds.insert(*fd);
                self.process.open_descriptor(*fd, *kind);
            },
            JournalEntry::DescriptorClosed { fd } => {
                if !self.open_fds.contains(*fd) {
                    return Err(self.fail(kind, ErrorKind::InvalidStateTransition));
                }
                self.open_fds.remove(*fd);
                self.process.close_descriptor(*fd);
            },
            JournalEntry::DescriptorWritten { fd, data } => {
                let out = self.registry.is_standard_output(*fd);
                let err = self.registry.is_standard_error(*fd);
                if !out && !err && !self.open_fds.contains(*fd) {
                    return Err(self.fail(kind, ErrorKind::InvalidStateTransition));
                }
                self.process.write_descriptor(*fd, data);
                if out {
                    self.stdio.append_output(data);
                } else if err {
                    self.stdio.append_error(data);
                }
            },
            JournalEntry::MemoryChanged { offset, data } => {
                let size = self.process.memory_len();
                if *offset as u128 > size as u128 || data.len() as u128 > size as u128
                    - *offset as u128 {
                    return Err(self.fail(kind, ErrorKind::LiveProcessError));
                }
                // memory is durable: the write is staged and committed within this entry
                let bytes = data.clone();
                assert(bytes@ =~= data@);
                self.staged_differ_memory.stage(*offset, bytes);
                let ghost mem = self.process.memory();
                let ghost ws = self.staged_differ_memory@;
                assert(ws.drop_last() =~= Seq::<(int, Seq<u8>)>::empty());
                assert(all_in_bounds(mem.len() as int, ws));
                let committed = self.staged_differ_memory.commit(&mut self.process);
                assert(committed is Ok);
                assert(ws.last() == (*offset as int, data@));
                assert(apply_writes(mem, ws.drop_last()) == mem);
                assert(apply_writes(mem, ws) == write_at(mem, *offset as int, data@));
            },
            JournalEntry::ThreadSpawned { id } => {
                self.spawn_threads.record_spawn(*id);
            },
            JournalEntry::ThreadExited { id } => {
                if !self.spawn_threads.record_exit(*id) {
                    note = Applied::UnknownThreadExit;
                }
            },
            JournalEntry::StandardOutput { data } => {
                self.stdio.append_output(data);
            },
            JournalEntry::StandardError { data } => {
                self.stdio.append_error(data);
            },
            JournalEntry::MarkedStandardOutput { fd } => {
                self.registry.mark_as_standard_output(*fd);
            },
            JournalEntry::MarkedStandardError { fd } => {
                self.registry.mark_as_standard_error(*fd);
            },
            JournalEntry::UnmarkedStandard { fd } => {
                self.registry.unmark(*fd);
            },
            JournalEntry::ClearEthereal => {
                self.clear_ethereal(Some(collector));
            },
        }
        self.state = PlayerState::Replaying;
        if self.position < u64::MAX {
            self.position = self.position + 1;
        }
        if entry.is_ethereal() {
            collector.push(entry);
        }
        proof {
            assert(self@ == step(old(self)@, entry));
        }
        Ok(note)
    }

    /// Feeds one entry; where a collector is given, ethereal entries are
    /// mirrored into it and a reset empties it.
    pub fn apply(&mut self, entry: JournalEntry, collector: Option<&mut Vec<JournalEntry>>) -> (r:
        Result<Applied, ReplayError>)
        requires
            old(self).wf(),
        ensures
            final(self).wf(),
            final(self)@ == step(old(self)@, entry),
            r is Ok <==> step_result(old(self)@, entry) is Ok,
            r matches Ok(a) ==> step_result(old(self)@, entry) == Ok::<Applied, ErrorKind>(a),
            r matches Err(e) ==> e == step_error(old(self)@, entry),
            collector matches Some(c) ==> final(c)@ == collect(c@, old(self)@, entry),
    {
        match collector {
            Some(c) => self.apply_collecting(entry, c),
            None => {
                let mut scratch: Vec<JournalEntry> = Vec::new();
                self.apply_collecting(entry, &mut scratch)
            },
        }
    }

    /// Feeds `entries` in order and stops at the first one that cannot be
    /// applied, reporting its position and kind.
    pub fn replay_log(&mut self, entries: Vec<JournalEntry>, collector: &mut Vec<JournalEntry>) -> (r:
        Result<(), ReplayError>)
        requires
            old(self).wf(),
        ensures
            final(self).wf(),
            final(self)@ == replay(old(self)@, entries@),
            final(collector)@ == replay_collect(old(self)@, old(collector)@, entries@),
            r is Ok <==> (entries@.len() == 0 || replay(old(self)@, entries@).state
                != PlayerState::Failed),
            r matches Err(e) ==> exists|k: int|
                {
                    &&& 0 <= k < entries@.len()
                    &&& forall|j: int|
                        0 <= j < k ==> step_result(
                            #[trigger] replay(old(self)@, entries@.take(j)),
                            entries@[j],
                        ) is Ok
                    &&& step_result(replay(old(self)@, entries@.take(k)), entries@[k]) is Err
                    &&& e == step_error(replay(old(self)@, entries@.take(k)), entries@[k])
                },
    {
        let total = entries.len();
        let ghost s0 = self@;
        let ghost c0 = collector@;
        let ghost es = entries@;
        let mut rest = entries;
        let mut pending: Vec<JournalEntry> = Vec::new();
        while rest.len() > 0
            invariant
                es == rest@ + pending@.reverse(),
            decreases rest@.len(),
        {
            let e = rest.pop().unwrap();
            proof {
                assert(pending@.push(e).reverse() =~= seq![e] + pending@.reverse());
            }
            pending.push(e);
            assert(es =~= rest@ + pending@.reverse());
        }
        assert(es =~= pending@.reverse());
        let ghost n = es.len();
        assert(n == total);
        let mut i: usize = 0;
        assert(es.take(0) =~= Seq::<JournalEntry>::empty());
        while pending.len() > 0
            invariant
                self.wf(),
                n == es.len(),
                n <= usize::MAX,
                s0 == old(self)@,
                c0 == old(collector)@,
                es == entries@,
                pending@.len() + i == n,
                es.skip(i as int) == pending@.reverse(),
                self@ == replay(s0, es.take(i as int)),
                collector@ == replay_collect(s0, c0, es.take(i as int)),
                self@.state != PlayerState::Failed || (i == 0 && s0.state == PlayerState::Failed),
                forall|j: int| 0 <= j < i ==> step_result(#[trigger] replay(s0, es.take(j)), es[j]) is Ok,
            decreases pending@.len(),
        {
            let e = pending.pop().unwrap();
            proof {
                assert(es.skip(i as int)[0] == e) by {
                    assert(pending@.push(e).reverse()[0] == e);
                }
                assert(es[i as int] == es.skip(i as int)[0]);
                assert(es.skip(i + 1) =~= pending@.reverse()) by {
                    assert(es.skip(i as int).skip(1) =~= es.skip(i + 1));
                    assert(pending@.push(e).reverse().skip(1) =~= pending@.reverse());
                }
                lemma_take_step(s0, c0, es, i as int);
            }
            let r = self.apply_collecting(e, collector);
            match r {
                Ok(_) => {
                    i = i + 1;
                },
                Err(err) => {
                    proof {
                        lemma_failed_prefix(s0, c0, es, i + 1);
                    }
                    return Err(err);
                },
            }
        }
        assert(es.take(i as int) =~= es);
        Ok(())
    }

    /// Ends the session: asks the live process to re-create each thread of
    /// the roster, and returns to `Idle`. A failed session is left as it is,
    /// and `false` is returned.
    pub fn finish(&mut self) -> (r: bool)
        requires
            old(self).wf(),
        ensures
            final(self).wf(),
            r == (old(self)@.state != PlayerState::Failed),
            !r ==> final(self)@ == old(self)@,
            r ==> final(self)@ == (PlayerModel {
                state: PlayerState::Idle,
                spawned: final(self)@.spawned,
                ..old(self)@
            }),
            r ==> exists|t: Seq<u32>|
                {
                    &&& final(self)@.spawned == old(self)@.spawned + t
                    &&& t.to_set() == old(self)@.threads
                    &&& t.no_duplicates()
                },
    {
        if self.state == PlayerState::Failed {
            return false;
        }
        let threads = self.spawn_threads.live_threads();
        let mut k: usize = 0;
        while k < threads.len()
            invariant
                0 <= k <= threads@.len(),
                self.process.threads() == old(self).process.threads() + threads@.take(k as int),
                self.process.memory() == old(self).process.memory(),
                self.process.descriptors() == old(self).process.descriptors(),
                self.process.wf(),
                self.state == old(self).state,
                self.position == old(self).position,
                self.registry == old(self).registry,
                self.stdio == old(self).stdio,
                self.spawn_threads == old(self).spawn_threads,
                self.open_fds == old(self).open_fds,
                self.staged_differ_memory == old(self).staged_differ_memory,
            decreases threads@.len() - k,
        {
            self.process.spawn_thread(threads[k]);
            assert(threads@.take(k + 1) =~= threads@.take(k as int).push(threads@[k as int]));
            k += 1;
        }
        assert(threads@.take(k as int) =~= threads@);
        self.state = PlayerState::Idle;
        true
    }

    pub fn state(&self) -> (r: PlayerState)
        ensures
            r == self@.state,
    {
        self.state
    }

    /// Index in the log of the next entry to feed.
    pub fn position(&self) -> (r: u64)
        ensures
            r == self@.position,
    {
        self.position
    }

    pub fn is_standard_output(&self, fd: u32) -> (r: bool)
        ensures
            r == self@.stdout_fds.contains(fd),
    {
        self.registry.is_standard_output(fd)
    }

    pub fn is_standard_error(&self, fd: u32) -> (r: bool)
        ensures
            r == self@.stderr_fds.contains(fd),
    {
        self.registry.is_standard_error(fd)
    }

    /// Whether `fd` was opened in the current segment.
    pub fn is_open_in_segment(&self, fd: u32) -> (r: bool)
        ensures
            r == self@.open_fds.contains(fd),
    {
        self.open_fds.contains(fd)
    }

    pub fn is_thread_live(&self, id: u32) -> (r: bool)
        ensures
            r == self@.threads.contains(id),
    {
        self.spawn_threads.is_live(id)
    }

    /// The roster's threads, in an unspecified order.
    pub fn live_threads(&self) -> (r: Vec<u32>)
        requires
            self.wf(),
        ensures
            r@.to_set() == self@.threads,
            r@.no_duplicates(),
    {
        self.spawn_threads.live_threads()
    }

    /// A copy of the captured (output, error) bytes.
    pub fn stdio_snapshot(&self) -> (r: (Vec<u8>, Vec<u8>))
        ensures
            r.0@ == self@.stdout,
            r.1@ == self@.stderr,
    {
        self.stdio.snapshot()
    }

    /// Hands out the captured (output, error) bytes for an external sink and
    /// empties both buffers.
    pub fn flush_stdio(&mut self) -> (r: (Vec<u8>, Vec<u8>))
        requires
            old(self).wf(),
        ensures
            final(self).wf(),
            r.0@ == old(self)@.stdout,
            r.1@ == old(self)@.stderr,
            final(self)@ == (PlayerModel { stdout: Seq::empty(), stderr: Seq::empty(), ..old(self)@ }),
    {
        self.stdio.drain()
    }

    /// The live process, for inspection.
    pub fn process(&self) -> (r: &ProcessImage)
        requires
            self.wf(),
        ensures
            r.wf(),
            r.memory() == self@.memory,
            r.descriptors() == self@.descriptors,
            r.threads() == self@.spawned,
    {
        &self.process
    }

    /// Ends the session and gives the live process back.
    pub fn into_process(self) -> (r: ProcessImage)
        requires
            self.wf(),
        ensures
            r.wf(),
            r.memory() == self@.memory,
            r.descriptors() == self@.descriptors,
            r.threads() == self@.spawned,
    {
        self.process
    }
}

} // verus!
