//! Replay side of a process journal: rebuilds a sandboxed process's state
//! from an ordered log of effect records, separating durable state (memory,
//! descriptor table) from ethereal, per-segment bookkeeping.

pub mod idset;
pub mod process;
pub mod differ;
pub mod registry;
pub mod stdio;
pub mod roster;
pub mod entry;
pub mod model;
pub mod player;
pub mod laws;
pub mod export;
