//! The closed set of effect records a journal can hold, and the errors a
//! replay can end with.

use vstd::prelude::*;
use crate::process::DescriptorKind;

verus! {

/// One recorded effect. Each variant owns everything needed to reproduce it.
pub enum JournalEntry {
    /// A descriptor was opened.
    DescriptorOpened { fd: u32, kind: DescriptorKind },
    /// A descriptor was closed.
    DescriptorClosed { fd: u32 },
    /// Bytes were written to a descriptor.
    DescriptorWritten { fd: u32, data: Vec<u8> },
    /// A region of linear memory changed.
    MemoryChanged { offset: u64, data: Vec<u8> },
    /// A logical thread was spawned.
    ThreadSpawned { id: u32 },
    /// A logical thread exited.
    ThreadExited { id: u32 },
    /// Bytes were emitted on standard output.
    StandardOutput { data: Vec<u8> },
    /// Bytes were emitted on standard error.
    StandardError { data: Vec<u8> },
    /// A descriptor started to behave as standard output.
    MarkedStandardOutput { fd: u32 },
    /// A descriptor started to behave as standard error.
    MarkedStandardError { fd: u32 },
    /// A descriptor stopped behaving as a standard stream.
    UnmarkedStandard { fd: u32 },
    /// Segment boundary: all ethereal state returns to its baseline.
    ClearEthereal,
}

/// The tag of an entry, without its payload.
#[derive(Clone, Copy, Debug, PartialEq, Eq, Structural)]
pub enum EntryKind {
    DescriptorOpened,
    DescriptorClosed,
    DescriptorWritten,
    MemoryChanged,
    ThreadSpawned,
    ThreadExited,
    StandardOutput,
    StandardError,
    MarkedStandardOutput,
    MarkedStandardError,
    UnmarkedStandard,
    ClearEthereal,
}

/// Why a replay stopped.
#[derive(Clone, Copy, Debug, PartialEq, Eq, Structural)]
pub enum ErrorKind {
    /// A record could not be decoded.
    DecodeError,
    /// A record carries a tag that this format does not know.
    UnknownEntryKind,
    /// A record refers to state that does not exist, such as a write to a
    /// descriptor that was not opened in the current segment.
    InvalidStateTransition,
    /// The live process refused the effect, such as a memory write outside
    /// its memory.
    LiveProcessError,
}

/// A failed replay: what went wrong, at which position of the log, on which
/// kind of entry.
#[derive(Clone, Copy, Debug, PartialEq, Eq, Structural)]
pub struct ReplayError {
    pub position: u64,
    pub entry: EntryKind,
    pub kind: ErrorKind,
}

/// Number of entry kinds; valid tags are below it.
pub const ENTRY_KIND_COUNT: u32 = 12;

impl EntryKind {
    /// The tag that stands for this kind in an encoded log.
    pub open spec fn spec_tag(self) -> u32 {
        match self {
            EntryKind::DescriptorOpened => 0,
            EntryKind::DescriptorClosed => 1,
            EntryKind::DescriptorWritten => 2,
            EntryKind::MemoryChanged => 3,
            EntryKind::ThreadSpawned => 4,
            EntryKind::ThreadExited => 5,
            EntryKind::StandardOutput => 6,
            EntryKind::StandardError => 7,
            EntryKind::MarkedStandardOutput => 8,
            EntryKind::MarkedStandardError => 9,
            EntryKind::UnmarkedStandard => 10,
            EntryKind::ClearEthereal => 11,
        }
    }

    #[verifier::when_used_as_spec(spec_tag)]
    pub fn tag(self) -> (r: u32)
        ensures
            r == self.spec_tag(),
    {
        match self {
            EntryKind::DescriptorOpened => 0,
            EntryKind::DescriptorClosed => 1,
            EntryKind::DescriptorWritten => 2,
            EntryKind::MemoryChanged => 3,
            EntryKind::ThreadSpawned => 4,
            EntryKind::ThreadExited => 5,
            EntryKind::StandardOutput => 6,
            EntryKind::StandardError => 7,
            EntryKind::MarkedStandardOutput => 8,
            EntryKind::MarkedStandardError => 9,
            EntryKind::UnmarkedStandard => 10,
            EntryKind::ClearEthereal => 11,
        }
    }

    /// Validates a tag before any payload is read: an unknown tag is an
    /// error, never skipped.
    pub fn from_tag(tag: u32) -> (r: Result<EntryKind, ErrorKind>)
        ensures
            r is Ok <==> tag < ENTRY_KIND_COUNT,
            r matches Ok(k) ==> k.spec_tag() == tag,
            r matches Err(e) ==> e == ErrorKind::UnknownEntryKind,
    {
        match tag {
            0 => Ok(EntryKind::DescriptorOpened),
            1 => Ok(EntryKind::DescriptorClosed),
            2 => Ok(EntryKind::DescriptorWritten),
            3 => Ok(EntryKind::MemoryChanged),
            4 => Ok(EntryKind::ThreadSpawned),
            5 => Ok(EntryKind::ThreadExited),
            6 => Ok(EntryKind::StandardOutput),
            7 => Ok(EntryKind::StandardError),
            8 => Ok(EntryKind::MarkedStandardOutput),
            9 => Ok(EntryKind::MarkedStandardError),
            10 => Ok(EntryKind::UnmarkedStandard),
            11 => Ok(EntryKind::ClearEthereal),
            _ => Err(ErrorKind::UnknownEntryKind),
        }
    }
}

impl JournalEntry {
    pub open spec fn spec_kind(&self) -> EntryKind {
        match self {
            JournalEntry::DescriptorOpened { .. } => EntryKind::DescriptorOpened,
            JournalEntry::DescriptorClosed { .. } => EntryKind::DescriptorClosed,
            JournalEntry::DescriptorWritten { .. } => EntryKind::DescriptorWritten,
            JournalEntry::MemoryChanged { .. } => EntryKind::MemoryChanged,
            JournalEntry::ThreadSpawned { .. } => EntryKind::ThreadSpawned,
            JournalEntry::ThreadExited { .. } => EntryKind::ThreadExited,
            JournalEntry::StandardOutput { .. } => EntryKind::StandardOutput,
            JournalEntry::StandardError { .. } => EntryKind::StandardError,
            JournalEntry::MarkedStandardOutput { .. } => EntryKind::MarkedStandardOutput,
            JournalEntry::MarkedStandardError { .. } => EntryKind::MarkedStandardError,
            JournalEntry::UnmarkedStandard { .. } => EntryKind::UnmarkedStandard,
            JournalEntry::ClearEthereal => EntryKind::ClearEthereal,
        }
    }

    #[verifier::when_used_as_spec(spec_kind)]
    pub fn kind(&self) -> (r: EntryKind)
        ensures
            r == self.spec_kind(),
    {
        match self {
            JournalEntry::DescriptorOpened { .. } => EntryKind::DescriptorOpened,
            JournalEntry::DescriptorClosed { .. } => EntryKind::DescriptorClosed,
            JournalEntry::DescriptorWritten { .. } => EntryKind::DescriptorWritten,
            JournalEntry::MemoryChanged { .. } => EntryKind::MemoryChanged,
            JournalEntry::ThreadSpawned { .. } => EntryKind::ThreadSpawned,
            JournalEntry::ThreadExited { .. } => EntryKind::ThreadExited,
            JournalEntry::StandardOutput { .. } => EntryKind::StandardOutput,
            JournalEntry::StandardError { .. } => EntryKind::StandardError,
            JournalEntry::MarkedStandardOutput { .. } => EntryKind::MarkedStandardOutput,
            JournalEntry::MarkedStandardError { .. } => EntryKind::MarkedStandardError,
            JournalEntry::UnmarkedStandard { .. } => EntryKind::UnmarkedStandard,
            JournalEntry::ClearEthereal => EntryKind::ClearEthereal,
        }
    }

    /// Entries that touch only ethereal bookkeeping; these are the ones
    /// mirrored into a differential collector.
    pub open spec fn spec_is_ethereal(&self) -> bool {
        match self {
            JournalEntry::ThreadSpawned { .. } => true,
            JournalEntry::ThreadExited { .. } => true,
            JournalEntry::StandardOutput { .. } => true,
            JournalEntry::StandardError { .. } => true,
            JournalEntry::MarkedStandardOutput { .. } => true,
            JournalEntry::MarkedStandardError { .. } => true,
            JournalEntry::UnmarkedStandard { .. } => true,
            _ => false,
        }
    }

    #[verifier::when_used_as_spec(spec_is_ethereal)]
    pub fn is_ethereal(&self) -> (r: bool)
        ensures
            r == self.spec_is_ethereal(),
    {
        match self {
            JournalEntry::ThreadSpawned { .. } => true,
            JournalEntry::ThreadExited { .. } => true,
            JournalEntry::StandardOutput { .. } => true,
            JournalEntry::StandardError { .. } => true,
            JournalEntry::MarkedStandardOutput { .. } => true,
            JournalEntry::MarkedStandardError { .. } => true,
            JournalEntry::UnmarkedStandard { .. } => true,
            _ => false,
        }
    }
}

} // verus!
