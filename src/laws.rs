//! Properties of replay that relate several entries or several sessions.

use vstd::prelude::*;
use crate::differ::apply_writes;
use crate::entry::JournalEntry;
use crate::model::{
    PlayerModel, PlayerState, collect, ethereal, lemma_failed_is_final, lemma_replay_append,
    memory_writes, replay, replay_collect, step,
};
use crate::registry::{STDERR_FD, STDOUT_FD};

verus! {

/// Replay is deterministic: two sessions that start in the same state and
/// are fed the same log end in the same state (registry, stdio buffers,
/// roster, memory, descriptor table), and fill their collectors alike.
pub proof fn lemma_replay_deterministic(
    s1: PlayerModel,
    s2: PlayerModel,
    c: Seq<JournalEntry>,
    es: Seq<JournalEntry>,
)
    requires
        s1 == s2,
    ensures
        replay(s1, es) == replay(s2, es),
        replay_collect(s1, c, es) == replay_collect(s2, c, es),
{
}

/// Two resets in a row leave the same state as one; only the position in
/// the log moves on. The collector is empty either way.
pub proof fn lemma_reset_idempotent(s: PlayerModel, c: Seq<JournalEntry>)
    ensures
        (PlayerModel {
            position: 0,
            ..step(step(s, JournalEntry::ClearEthereal), JournalEntry::ClearEthereal)
        }) == (PlayerModel { position: 0, ..step(s, JournalEntry::ClearEthereal) }),
        collect(
            collect(c, s, JournalEntry::ClearEthereal),
            step(s, JournalEntry::ClearEthereal),
            JournalEntry::ClearEthereal,
        ) == collect(c, s, JournalEntry::ClearEthereal),
{
}

/// Right after a reset in a live session, descriptor 1 is the only
/// output-like descriptor and descriptor 2 the only error-like one.
pub proof fn lemma_reset_canonical(s: PlayerModel)
    requires
        s.state != PlayerState::Failed,
    ensures
        step(s, JournalEntry::ClearEthereal).stdout_fds == set![STDOUT_FD],
        step(s, JournalEntry::ClearEthereal).stderr_fds == set![STDERR_FD],
{
}

/// Whether two states agree on everything a later entry can read or
/// change in ethereal state.
pub open spec fn ethereal_alike(s1: PlayerModel, s2: PlayerModel) -> bool {
    &&& ethereal(s1) == ethereal(s2)
    &&& s1.memory.len() == s2.memory.len()
    &&& (s1.state == PlayerState::Failed) == (s2.state == PlayerState::Failed)
}

proof fn lemma_step_alike(s1: PlayerModel, s2: PlayerModel, c: Seq<JournalEntry>, e: JournalEntry)
    requires
        ethereal_alike(s1, s2),
    ensures
        ethereal_alike(step(s1, e), step(s2, e)),
        collect(c, s1, e) == collect(c, s2, e),
{
}

proof fn lemma_replay_alike(s1: PlayerModel, s2: PlayerModel, c: Seq<JournalEntry>, es: Seq<JournalEntry>)
    requires
        ethereal_alike(s1, s2),
    ensures
        ethereal_alike(replay(s1, es), replay(s2, es)),
        replay_collect(s1, c, es) == replay_collect(s2, c, es),
    decreases es.len(),
{
    if es.len() > 0 {
        lemma_replay_alike(s1, s2, c, es.drop_last());
        lemma_step_alike(replay(s1, es.drop_last()), replay(s2, es.drop_last()), replay_collect(s1, c, es.drop_last()), es.last());
    }
}

proof fn lemma_replay_keeps_memory_len(s: PlayerModel, es: Seq<JournalEntry>)
    ensures
        replay(s, es).memory.len() == s.memory.len(),
    decreases es.len(),
{
    if es.len() > 0 {
        lemma_replay_keeps_memory_len(s, es.drop_last());
    }
}

/// Ethereal isolation: for a log `a ++ [reset] ++ b`, the final ethereal
/// state (roster, stdio buffers, registry, open descriptors) and the
/// differential collector depend on `b` alone. This holds where `a` does
/// not fail, and of processes with memories of the same size (which
/// decides whether a memory write of `b` applies). For the durable half,
/// see `lemma_durable_memory` and `lemma_reset_keeps_durable_state`.
pub proof fn lemma_ethereal_isolation(
    s1: PlayerModel,
    c1: Seq<JournalEntry>,
    a1: Seq<JournalEntry>,
    s2: PlayerModel,
    c2: Seq<JournalEntry>,
    a2: Seq<JournalEntry>,
    b: Seq<JournalEntry>,
)
    requires
        replay(s1, a1).state != PlayerState::Failed,
        replay(s2, a2).state != PlayerState::Failed,
        s1.memory.len() == s2.memory.len(),
    ensures
        ethereal(replay(s1, a1 + seq![JournalEntry::ClearEthereal] + b)) == ethereal(
            replay(s2, a2 + seq![JournalEntry::ClearEthereal] + b),
        ),
        replay(s1, a1 + seq![JournalEntry::ClearEthereal] + b).state == replay(
            s2,
            a2 + seq![JournalEntry::ClearEthereal] + b,
        ).state,
        replay_collect(s1, c1, a1 + seq![JournalEntry::ClearEthereal] + b) == replay_collect(
            s2,
            c2,
            a2 + seq![JournalEntry::ClearEthereal] + b,
        ),
{
    let r = seq![JournalEntry::ClearEthereal];
    lemma_replay_append(s1, c1, a1, r);
    lemma_replay_append(s1, c1, a1 + r, b);
    lemma_replay_append(s2, c2, a2, r);
    lemma_replay_append(s2, c2, a2 + r, b);
    assert(r.drop_last() =~= Seq::<JournalEntry>::empty());
    let t1 = replay(s1, a1 + r);
    let t2 = replay(s2, a2 + r);
    assert(t1 == step(replay(s1, a1), JournalEntry::ClearEthereal));
    assert(t2 == step(replay(s2, a2), JournalEntry::ClearEthereal));
    lemma_replay_keeps_memory_len(s1, a1);
    lemma_replay_keeps_memory_len(s2, a2);
    assert(ethereal_alike(t1, t2));
    let k1 = replay_collect(s1, c1, a1 + r);
    let k2 = replay_collect(s2, c2, a2 + r);
    assert(k1 == Seq::<JournalEntry>::empty());
    assert(k2 == Seq::<JournalEntry>::empty());
    lemma_replay_alike(t1, t2, k1, b);
    assert(replay(t1, b).state != PlayerState::Failed ==> replay(t1, b).state == PlayerState::Replaying || b.len() == 0) by {
        lemma_replay_state(t1, b);
    }
    assert(replay(t2, b).state != PlayerState::Failed ==> replay(t2, b).state == PlayerState::Replaying || b.len() == 0) by {
        lemma_replay_state(t2, b);
    }
}

proof fn lemma_replay_state(s: PlayerModel, es: Seq<JournalEntry>)
    ensures
        es.len() == 0 ==> replay(s, es) == s,
        es.len() > 0 ==> replay(s, es).state != PlayerState::Idle,
    decreases es.len(),
{
    if es.len() > 0 {
        lemma_replay_state(s, es.drop_last());
    }
}

/// A session that has not failed holds the memory it started with, with
/// every memory write of the log applied in log order.
pub proof fn lemma_replay_memory(s: PlayerModel, es: Seq<JournalEntry>)
    requires
        replay(s, es).state != PlayerState::Failed,
    ensures
        replay(s, es).memory == apply_writes(s.memory, memory_writes(es)),
    decreases es.len(),
{
    if es.len() > 0 {
        let prev = replay(s, es.drop_last());
        if prev.state == PlayerState::Failed {
            lemma_failed_is_final(prev, Seq::empty(), seq![es.last()]);
            assert(seq![es.last()].drop_last() =~= Seq::<JournalEntry>::empty());
        }
        lemma_replay_memory(s, es.drop_last());
        let ws = memory_writes(es.drop_last());
        if let JournalEntry::MemoryChanged { offset, data } = es.last() {
            assert(ws.push((offset as int, data@)).drop_last() =~= ws);
        }
    }
}

proof fn lemma_memory_writes_append(a: Seq<JournalEntry>, b: Seq<JournalEntry>)
    ensures
        memory_writes(a + b) == memory_writes(a) + memory_writes(b),
    decreases b.len(),
{
    if b.len() == 0 {
        assert(a + b =~= a);
        assert(memory_writes(a) + memory_writes(b) =~= memory_writes(a));
    } else {
        lemma_memory_writes_append(a, b.drop_last());
        assert((a + b).drop_last() =~= a + b.drop_last());
        assert((a + b).last() == b.last());
        if let JournalEntry::MemoryChanged { offset, data } = b.last() {
            assert(memory_writes(a) + memory_writes(b.drop_last()).push((offset as int, data@))
                =~= (memory_writes(a) + memory_writes(b.drop_last())).push((offset as int, data@)));
        }
    }
}

/// Memory is durable across a reset: where nothing in `a ++ [reset] ++ b`
/// fails, the final memory is the starting memory with the writes of `a`
/// and then those of `b` applied in log order.
pub proof fn lemma_durable_memory(s: PlayerModel, a: Seq<JournalEntry>, b: Seq<JournalEntry>)
    requires
        replay(s, a + seq![JournalEntry::ClearEthereal] + b).state != PlayerState::Failed,
    ensures
        replay(s, a + seq![JournalEntry::ClearEthereal] + b).memory == apply_writes(
            s.memory,
            memory_writes(a) + memory_writes(b),
        ),
{
    let r = seq![JournalEntry::ClearEthereal];
    lemma_replay_memory(s, a + r + b);
    lemma_memory_writes_append(a + r, b);
    lemma_memory_writes_append(a, r);
    assert(r.drop_last() =~= Seq::<JournalEntry>::empty());
    assert(memory_writes(r.drop_last()) =~= Seq::<(int, Seq<u8>)>::empty());
    assert(memory_writes(r) =~= Seq::<(int, Seq<u8>)>::empty());
    assert(memory_writes(a) + memory_writes(r) =~= memory_writes(a));
}

/// A reset changes no durable state: memory, the descriptor table with
/// what was written to each descriptor, and the thread requests all stay.
/// So after `a ++ [reset] ++ b` the durable state is what `b` makes of the
/// durable state that `a` left.
pub proof fn lemma_reset_keeps_durable_state(s: PlayerModel)
    ensures
        step(s, JournalEntry::ClearEthereal).memory == s.memory,
        step(s, JournalEntry::ClearEthereal).descriptors == s.descriptors,
        step(s, JournalEntry::ClearEthereal).spawned == s.spawned,
{
}

} // verus!
