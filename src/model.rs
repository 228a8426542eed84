//! The replay engine as a state machine over mathematical values: what one
//! entry does to the whole state, and what a log does.
//!
//! Descriptors live in two independent tables. The live process's table is
//! durable: it keeps every descriptor and what was written to it across
//! resets. The set of descriptors opened in the current segment is
//! ethereal, and it alone decides whether a write or a close is valid.
//! Closing a descriptor leaves its standard-stream marking alone; only
//! explicit marking entries and resets change the markings.

use vstd::prelude::*;
use crate::entry::{EntryKind, ErrorKind, JournalEntry, ReplayError};
use crate::process::{DescriptorState, opened, region_in_bounds, write_at, written};
use crate::registry::{STDERR_FD, STDOUT_FD};

verus! {

/// Where a replay session stands.
#[derive(Clone, Copy, Debug, PartialEq, Eq, Structural)]
pub enum PlayerState {
    /// No entry fed yet, or the log was finished.
    Idle,
    /// Entries are being fed.
    Replaying,
    /// An entry could not be applied; the session is over.
    Failed,
}

/// What applying an entry reports besides success.
#[derive(Clone, Copy, Debug, PartialEq, Eq, Structural)]
pub enum Applied {
    Done,
    /// A thread exit named a thread that the roster did not hold; this is
    /// tolerated and only reported.
    UnknownThreadExit,
}

/// The whole state of a replay session.
pub struct PlayerModel {
    pub state: PlayerState,
    /// Index in the log of the next entry.
    pub position: u64,
    /// Ethereal: descriptors that behave as standard output.
    pub stdout_fds: Set<u32>,
    /// Ethereal: descriptors that behave as standard error.
    pub stderr_fds: Set<u32>,
    /// Ethereal: output captured on standard output.
    pub stdout: Seq<u8>,
    /// Ethereal: output captured on standard error.
    pub stderr: Seq<u8>,
    /// Ethereal: the thread roster.
    pub threads: Set<u32>,
    /// Ethereal: descriptors opened in the current segment.
    pub open_fds: Set<u32>,
    /// Durable: the live process's memory.
    pub memory: Seq<u8>,
    /// Durable: the live process's descriptor table.
    pub descriptors: Map<u32, DescriptorState>,
    /// Durable: threads whose re-creation was requested.
    pub spawned: Seq<u32>,
}

/// The ethereal part of a state.
pub struct EtherealState {
    pub stdout_fds: Set<u32>,
    pub stderr_fds: Set<u32>,
    pub stdout: Seq<u8>,
    pub stderr: Seq<u8>,
    pub threads: Set<u32>,
    pub open_fds: Set<u32>,
}

pub open spec fn ethereal(s: PlayerModel) -> EtherealState {
    EtherealState {
        stdout_fds: s.stdout_fds,
        stderr_fds: s.stderr_fds,
        stdout: s.stdout,
        stderr: s.stderr,
        threads: s.threads,
        open_fds: s.open_fds,
    }
}

/// A new session over a process with the given durable state.
pub open spec fn fresh(
    memory: Seq<u8>,
    descriptors: Map<u32, DescriptorState>,
    spawned: Seq<u32>,
) -> PlayerModel {
    PlayerModel {
        state: PlayerState::Idle,
        position: 0,
        stdout_fds: set![STDOUT_FD],
        stderr_fds: set![STDERR_FD],
        stdout: Seq::empty(),
        stderr: Seq::empty(),
        threads: Set::empty(),
        open_fds: Set::empty(),
        memory,
        descriptors,
        spawned,
    }
}

/// `s` with all its ethereal state back at the canonical baseline.
pub open spec fn cleared(s: PlayerModel) -> PlayerModel {
    PlayerModel {
        stdout_fds: set![STDOUT_FD],
        stderr_fds: set![STDERR_FD],
        stdout: Seq::empty(),
        stderr: Seq::empty(),
        threads: Set::empty(),
        open_fds: Set::empty(),
        ..s
    }
}

pub open spec fn next_position(p: u64) -> u64 {
    if p < u64::MAX {
        (p + 1) as u64
    } else {
        p
    }
}

/// A write to `fd` is allowed: it was opened in this segment, or it is a
/// standard stream.
pub open spec fn may_write(s: PlayerModel, fd: u32) -> bool {
    s.open_fds.contains(fd) || s.stdout_fds.contains(fd) || s.stderr_fds.contains(fd)
}

/// Whether `e` can be applied in `s`, and what is reported.
pub open spec fn step_result(s: PlayerModel, e: JournalEntry) -> Result<Applied, ErrorKind> {
    if s.state == PlayerState::Failed {
        Err(ErrorKind::InvalidStateTransition)
    } else {
        match e {
            JournalEntry::DescriptorClosed { fd } => if s.open_fds.contains(fd) {
                Ok(Applied::Done)
            } else {
                Err(ErrorKind::InvalidStateTransition)
            },
            JournalEntry::DescriptorWritten { fd, .. } => if may_write(s, fd) {
                Ok(Applied::Done)
            } else {
                Err(ErrorKind::InvalidStateTransition)
            },
            JournalEntry::MemoryChanged { offset, data } => if region_in_bounds(
                s.memory.len() as int,
                offset as int,
                data@.len() as int,
            ) {
                Ok(Applied::Done)
            } else {
                Err(ErrorKind::LiveProcessError)
            },
            JournalEntry::ThreadExited { id } => if s.threads.contains(id) {
                Ok(Applied::Done)
            } else {
                Ok(Applied::UnknownThreadExit)
            },
            _ => Ok(Applied::Done),
        }
    }
}

/// The error reported where `e` cannot be applied in `s`.
pub open spec fn step_error(s: PlayerModel, e: JournalEntry) -> ReplayError {
    ReplayError { position: s.position, entry: e.spec_kind(), kind: step_result(s, e)->Err_0 }
}

/// What `e` does to `s`, where it can be applied.
pub open spec fn effect(s: PlayerModel, e: JournalEntry) -> PlayerModel {
    match e {
        JournalEntry::DescriptorOpened { fd, kind } => PlayerModel {
            open_fds: s.open_fds.insert(fd),
            descriptors: opened(s.descriptors, fd, kind),
            ..s
        },
        JournalEntry::DescriptorClosed { fd } => PlayerModel {
            open_fds: s.open_fds.remove(fd),
            descriptors: s.descriptors.remove(fd),
            ..s
        },
        JournalEntry::DescriptorWritten { fd, data } => PlayerModel {
            descriptors: written(s.descriptors, fd, data@),
            stdout: if s.stdout_fds.contains(fd) {
                s.stdout + data@
            } else {
                s.stdout
            },
            stderr: if !s.stdout_fds.contains(fd) && s.stderr_fds.contains(fd) {
                s.stderr + data@
            } else {
                s.stderr
            },
            ..s
        },
        JournalEntry::MemoryChanged { offset, data } => PlayerModel {
            memory: write_at(s.memory, offset as int, data@),
            ..s
        },
        JournalEntry::ThreadSpawned { id } => PlayerModel { threads: s.threads.insert(id), ..s },
        JournalEntry::ThreadExited { id } => PlayerModel { threads: s.threads.remove(id), ..s },
        JournalEntry::StandardOutput { data } => PlayerModel { stdout: s.stdout + data@, ..s },
        JournalEntry::StandardError { data } => PlayerModel { stderr: s.stderr + data@, ..s },
        JournalEntry::MarkedStandardOutput { fd } => PlayerModel {
            stdout_fds: s.stdout_fds.insert(fd),
            stderr_fds: s.stderr_fds.remove(fd),
            ..s
        },
        JournalEntry::MarkedStandardError { fd } => PlayerModel {
            stdout_fds: s.stdout_fds.remove(fd),
            stderr_fds: s.stderr_fds.insert(fd),
            ..s
        },
        JournalEntry::UnmarkedStandard { fd } => PlayerModel {
            stdout_fds: s.stdout_fds.remove(fd),
            stderr_fds: s.stderr_fds.remove(fd),
            ..s
        },
        JournalEntry::ClearEthereal => cleared(s),
    }
}

/// The state after feeding `e` in `s`: on failure only the state changes,
/// to `Failed`.
pub open spec fn step(s: PlayerModel, e: JournalEntry) -> PlayerModel {
    if step_result(s, e) is Ok {
        PlayerModel {
            state: PlayerState::Replaying,
            position: next_position(s.position),
            ..effect(s, e)
        }
    } else {
        PlayerModel { state: PlayerState::Failed, ..s }
    }
}

/// The differential collector after feeding `e` in `s`: a reset empties
/// it, an applied ethereal entry is appended, anything else leaves it.
pub open spec fn collect(c: Seq<JournalEntry>, s: PlayerModel, e: JournalEntry) -> Seq<
    JournalEntry,
> {
    if step_result(s, e) is Err {
        c
    } else if e is ClearEthereal {
        Seq::empty()
    } else if e.spec_is_ethereal() {
        c.push(e)
    } else {
        c
    }
}

/// The memory writes that `es` records, in log order.
pub open spec fn memory_writes(es: Seq<JournalEntry>) -> Seq<(int, Seq<u8>)>
    decreases es.len(),
{
    if es.len() == 0 {
        Seq::empty()
    } else {
        match es.last() {
            JournalEntry::MemoryChanged { offset, data } => memory_writes(es.drop_last()).push(
                (offset as int, data@),
            ),
            _ => memory_writes(es.drop_last()),
        }
    }
}

/// The state after feeding every entry of `es`, in order.
pub open spec fn replay(s: PlayerModel, es: Seq<JournalEntry>) -> PlayerModel
    decreases es.len(),
{
    if es.len() == 0 {
        s
    } else {
        step(replay(s, es.drop_last()), es.last())
    }
}

/// The differential collector after feeding every entry of `es`, in order.
pub open spec fn replay_collect(s: PlayerModel, c: Seq<JournalEntry>, es: Seq<JournalEntry>) -> Seq<
    JournalEntry,
>
    decreases es.len(),
{
    if es.len() == 0 {
        c
    } else {
        collect(replay_collect(s, c, es.drop_last()), replay(s, es.drop_last()), es.last())
    }
}

/// Once failed, a session stays as it is, whatever is fed.
pub proof fn lemma_failed_is_final(s: PlayerModel, c: Seq<JournalEntry>, es: Seq<JournalEntry>)
    requires
        s.state == PlayerState::Failed,
    ensures
        replay(s, es) == s,
        replay_collect(s, c, es) == c,
    decreases es.len(),
{
    if es.len() > 0 {
        lemma_failed_is_final(s, c, es.drop_last());
    }
}

/// Feeding `a ++ b` is feeding `a`, then `b`.
pub proof fn lemma_replay_append(
    s: PlayerModel,
    c: Seq<JournalEntry>,
    a: Seq<JournalEntry>,
    b: Seq<JournalEntry>,
)
    ensures
        replay(s, a + b) == replay(replay(s, a), b),
        replay_collect(s, c, a + b) == replay_collect(replay(s, a), replay_collect(s, c, a), b),
    decreases b.len(),
{
    if b.len() == 0 {
        assert(a + b =~= a);
    } else {
        lemma_replay_append(s, c, a, b.drop_last());
        assert((a + b).drop_last() =~= a + b.drop_last());
        assert((a + b).last() == b.last());
    }
}

/// The prefix of `es` of length `k + 1` is the prefix of length `k`, then `es[k]`.
pub proof fn lemma_take_step(s: PlayerModel, c: Seq<JournalEntry>, es: Seq<JournalEntry>, k: int)
    requires
        0 <= k < es.len(),
    ensures
        replay(s, es.take(k + 1)) == step(replay(s, es.take(k)), es[k]),
        replay_collect(s, c, es.take(k + 1)) == collect(
            replay_collect(s, c, es.take(k)),
            replay(s, es.take(k)),
            es[k],
        ),
{
    assert(es.take(k + 1).drop_last() =~= es.take(k));
    assert(es.take(k + 1).last() == es[k]);
}

/// Once a prefix of `es` has failed, the rest of `es` changes nothing.
pub proof fn lemma_failed_prefix(s: PlayerModel, c: Seq<JournalEntry>, es: Seq<JournalEntry>, k: int)
    requires
        0 <= k <= es.len(),
        replay(s, es.take(k)).state == PlayerState::Failed,
    ensures
        replay(s, es) == replay(s, es.take(k)),
        replay_collect(s, c, es) == replay_collect(s, c, es.take(k)),
{
    lemma_replay_append(s, c, es.take(k), es.skip(k));
    assert(es.take(k) + es.skip(k) =~= es);
    lemma_failed_is_final(replay(s, es.take(k)), replay_collect(s, c, es.take(k)), es.skip(k));
}

} // verus!
