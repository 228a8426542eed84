use wasix_journal::entry::{EntryKind, ErrorKind, JournalEntry};
use wasix_journal::model::{Applied, PlayerState};
use wasix_journal::player::JournalSyscallPlayer;
use wasix_journal::process::{DescriptorKind, ProcessImage};

fn player(size: usize) -> JournalSyscallPlayer {
    JournalSyscallPlayer::new(ProcessImage::new(size))
}

fn open(fd: u32) -> JournalEntry {
    JournalEntry::DescriptorOpened { fd, kind: DescriptorKind::File }
}

fn write(fd: u32, data: &[u8]) -> JournalEntry {
    JournalEntry::DescriptorWritten { fd, data: data.to_vec() }
}

fn sample_log() -> Vec<JournalEntry> {
    vec![
        open(3),
        write(3, b"abc"),
        JournalEntry::MemoryChanged { offset: 2, data: vec![9, 9, 9] },
        JournalEntry::ThreadSpawned { id: 4 },
        JournalEntry::StandardOutput { data: b"out".to_vec() },
        JournalEntry::MarkedStandardError { fd: 3 },
        write(3, b"err"),
        JournalEntry::MemoryChanged { offset: 3, data: vec![1] },
    ]
}

#[test]
fn write_after_reset_to_descriptor_opened_before_fails() {
    let mut p = player(8);
    assert!(p.apply(open(3), None).is_ok());
    assert!(p.apply(write(3, b"hi"), None).is_ok());
    assert!(p.is_open_in_segment(3));
    assert!(p.apply(JournalEntry::ClearEthereal, None).is_ok());
    assert!(!p.is_open_in_segment(3));
    assert!(!p.is_standard_output(3));
    assert!(!p.is_standard_error(3));
    let err = p.apply(write(3, b"no"), None).unwrap_err();
    assert_eq!(err.kind, ErrorKind::InvalidStateTransition);
    assert_eq!(err.position, 3);
    assert_eq!(err.entry, EntryKind::DescriptorWritten);
    assert_eq!(p.state(), PlayerState::Failed);
    // the durable table still holds what the first segment wrote
    assert_eq!(p.process().descriptor_data(3), Some(b"hi".to_vec()));
}

#[test]
fn exit_of_unknown_thread_after_reset_is_only_a_note() {
    let mut p = player(0);
    assert_eq!(p.apply(JournalEntry::ThreadSpawned { id: 7 }, None), Ok(Applied::Done));
    assert!(p.is_thread_live(7));
    assert!(p.apply(JournalEntry::ClearEthereal, None).is_ok());
    assert!(!p.is_thread_live(7));
    assert_eq!(p.apply(JournalEntry::ThreadExited { id: 7 }, None), Ok(Applied::UnknownThreadExit));
    assert_eq!(p.state(), PlayerState::Replaying);
}

#[test]
fn exit_of_known_thread_is_done() {
    let mut p = player(0);
    p.apply(JournalEntry::ThreadSpawned { id: 5 }, None).unwrap();
    assert_eq!(p.apply(JournalEntry::ThreadExited { id: 5 }, None), Ok(Applied::Done));
    assert!(p.live_threads().is_empty());
}

#[test]
fn two_fresh_players_end_alike() {
    let mut a = player(8);
    let mut b = player(8);
    let mut ca = Vec::new();
    let mut cb = Vec::new();
    assert!(a.replay_log(sample_log(), &mut ca).is_ok());
    assert!(b.replay_log(sample_log(), &mut cb).is_ok());
    assert_eq!(a.stdio_snapshot(), b.stdio_snapshot());
    assert_eq!(a.live_threads(), b.live_threads());
    assert_eq!(a.position(), b.position());
    assert_eq!(ca.len(), cb.len());
    assert!(a.finish());
    assert!(b.finish());
    assert_eq!(a.process().memory_bytes(), b.process().memory_bytes());
    assert_eq!(a.process().memory_bytes(), vec![0, 0, 9, 1, 9, 0, 0, 0]);
    assert_eq!(a.process().descriptor_data(3), b.process().descriptor_data(3));
    assert_eq!(a.stdio_snapshot(), (b"out".to_vec(), b"err".to_vec()));
    assert_eq!(a.process().requested_threads(), vec![4]);
}

#[test]
fn reset_twice_equals_reset_once() {
    let mut a = player(8);
    let mut b = player(8);
    let mut ca = Vec::new();
    let mut cb = Vec::new();
    a.replay_log(sample_log(), &mut ca).unwrap();
    b.replay_log(sample_log(), &mut cb).unwrap();
    a.apply(JournalEntry::ClearEthereal, Some(&mut ca)).unwrap();
    b.apply(JournalEntry::ClearEthereal, Some(&mut cb)).unwrap();
    b.apply(JournalEntry::ClearEthereal, Some(&mut cb)).unwrap();
    assert_eq!(a.stdio_snapshot(), b.stdio_snapshot());
    assert_eq!(a.live_threads(), b.live_threads());
    assert_eq!(a.process().memory_bytes(), b.process().memory_bytes());
    assert_eq!(a.state(), b.state());
    assert!(ca.is_empty() && cb.is_empty());
    assert_eq!(b.position(), a.position() + 1);
    a.finish();
    b.finish();
    assert_eq!(a.process().memory_bytes(), b.process().memory_bytes());
}

#[test]
fn reset_restores_canonical_streams() {
    let mut p = player(0);
    p.apply(JournalEntry::UnmarkedStandard { fd: 1 }, None).unwrap();
    p.apply(JournalEntry::MarkedStandardOutput { fd: 2 }, None).unwrap();
    p.apply(JournalEntry::MarkedStandardOutput { fd: 9 }, None).unwrap();
    assert!(!p.is_standard_output(1));
    assert!(!p.is_standard_error(2));
    p.apply(JournalEntry::ClearEthereal, None).unwrap();
    assert!(p.is_standard_output(1));
    assert!(p.is_standard_error(2));
    assert!(!p.is_standard_output(2));
    assert!(!p.is_standard_error(1));
    assert!(!p.is_standard_output(9));
}

#[test]
fn fresh_player_has_canonical_streams() {
    let p = player(0);
    assert!(p.is_standard_output(1));
    assert!(p.is_standard_error(2));
    assert_eq!(p.state(), PlayerState::Idle);
    assert_eq!(p.position(), 0);
}

#[test]
fn ethereal_state_after_reset_depends_only_on_the_rest() {
    let tail = || {
        vec![
            JournalEntry::ClearEthereal,
            JournalEntry::ThreadSpawned { id: 1 },
            JournalEntry::StandardError { data: b"x".to_vec() },
        ]
    };
    let mut a = player(8);
    let mut ca = Vec::new();
    let mut log_a = sample_log();
    log_a.extend(tail());
    a.replay_log(log_a, &mut ca).unwrap();

    let mut b = player(8);
    let mut cb = Vec::new();
    b.replay_log(tail(), &mut cb).unwrap();

    assert_eq!(a.stdio_snapshot(), b.stdio_snapshot());
    assert_eq!(a.stdio_snapshot(), (Vec::new(), b"x".to_vec()));
    assert_eq!(a.live_threads(), b.live_threads());
    assert!(!a.is_standard_error(3));
    assert_eq!(ca.len(), cb.len());
    assert_eq!(ca.len(), 2);
    // durable memory keeps the first segment's writes
    assert_eq!(a.process().memory_bytes(), vec![0, 0, 9, 1, 9, 0, 0, 0]);
    assert_eq!(b.process().memory_bytes(), vec![0; 8]);
    assert_eq!(ca[0].kind(), EntryKind::ThreadSpawned);
    assert_eq!(ca[1].kind(), EntryKind::StandardError);
    // durable state still reflects the first segment
    assert_eq!(a.process().descriptor_data(3), Some(b"abcerr".to_vec()));
    assert_eq!(b.process().descriptor_data(3), None);
}

#[test]
fn memory_written_before_reset_stays() {
    let mut p = player(4);
    p.apply(JournalEntry::MemoryChanged { offset: 0, data: vec![7, 7] }, None).unwrap();
    assert_eq!(p.process().memory_bytes(), vec![7, 7, 0, 0]);
    p.apply(JournalEntry::ClearEthereal, None).unwrap();
    assert_eq!(p.process().memory_bytes(), vec![7, 7, 0, 0]);
    p.apply(JournalEntry::MemoryChanged { offset: 1, data: vec![5, 5] }, None).unwrap();
    assert!(p.finish());
    assert_eq!(p.process().memory_bytes(), vec![7, 5, 5, 0]);
}

#[test]
fn memory_write_out_of_bounds_is_live_process_error() {
    let mut p = player(4);
    let err = p.apply(JournalEntry::MemoryChanged { offset: 2, data: vec![1, 2, 3] }, None).unwrap_err();
    assert_eq!(err.kind, ErrorKind::LiveProcessError);
    assert_eq!(err.position, 0);
    assert_eq!(err.entry, EntryKind::MemoryChanged);
    assert_eq!(p.process().memory_bytes(), vec![0, 0, 0, 0]);
}

#[test]
fn memory_write_at_the_very_end_fits() {
    let mut p = player(4);
    p.apply(JournalEntry::MemoryChanged { offset: 1, data: vec![1, 2, 3] }, None).unwrap();
    p.apply(JournalEntry::MemoryChanged { offset: 4, data: vec![] }, None).unwrap();
    assert!(p.finish());
    assert_eq!(p.process().memory_bytes(), vec![0, 1, 2, 3]);
    assert_eq!(p.state(), PlayerState::Idle);
}

#[test]
fn close_of_descriptor_not_open_fails() {
    let mut p = player(0);
    let err = p.apply(JournalEntry::DescriptorClosed { fd: 5 }, None).unwrap_err();
    assert_eq!(err.kind, ErrorKind::InvalidStateTransition);
    assert_eq!(err.entry, EntryKind::DescriptorClosed);
}

#[test]
fn open_write_close_updates_durable_table() {
    let mut p = player(0);
    p.apply(open(4), None).unwrap();
    p.apply(write(4, b"ab"), None).unwrap();
    assert_eq!(p.process().descriptor_data(4), Some(b"ab".to_vec()));
    p.apply(JournalEntry::DescriptorClosed { fd: 4 }, None).unwrap();
    assert!(!p.process().has_descriptor(4));
    assert!(!p.is_open_in_segment(4));
}

#[test]
fn failed_player_refuses_further_entries() {
    let mut p = player(0);
    assert!(p.apply(write(9, b"x"), None).is_err());
    let err = p.apply(JournalEntry::ClearEthereal, None).unwrap_err();
    assert_eq!(err.kind, ErrorKind::InvalidStateTransition);
    assert_eq!(err.position, 0);
    assert!(!p.finish());
    assert_eq!(p.state(), PlayerState::Failed);
}

#[test]
fn replay_log_reports_first_failing_entry() {
    let mut p = player(2);
    let mut c = Vec::new();
    let log = vec![
        JournalEntry::StandardOutput { data: b"a".to_vec() },
        JournalEntry::ThreadSpawned { id: 1 },
        write(6, b"x"),
        JournalEntry::ThreadSpawned { id: 2 },
    ];
    let err = p.replay_log(log, &mut c).unwrap_err();
    assert_eq!(err.position, 2);
    assert_eq!(err.entry, EntryKind::DescriptorWritten);
    assert_eq!(err.kind, ErrorKind::InvalidStateTransition);
    assert!(!p.is_thread_live(2));
    assert_eq!(c.len(), 2);
}

#[test]
fn writes_to_standard_streams_are_captured() {
    let mut p = player(0);
    p.apply(write(1, b"hello "), None).unwrap();
    p.apply(write(2, b"oops"), None).unwrap();
    p.apply(JournalEntry::StandardOutput { data: b"world".to_vec() }, None).unwrap();
    assert_eq!(p.stdio_snapshot(), (b"hello world".to_vec(), b"oops".to_vec()));
    assert_eq!(p.process().descriptor_data(1), Some(b"hello ".to_vec()));
    let flushed = p.flush_stdio();
    assert_eq!(flushed, (b"hello world".to_vec(), b"oops".to_vec()));
    assert_eq!(p.stdio_snapshot(), (Vec::new(), Vec::new()));
}

#[test]
fn collector_mirrors_only_ethereal_entries() {
    let mut p = player(4);
    let mut c = Vec::new();
    p.apply(open(3), Some(&mut c)).unwrap();
    p.apply(JournalEntry::MemoryChanged { offset: 0, data: vec![1] }, Some(&mut c)).unwrap();
    p.apply(JournalEntry::MarkedStandardOutput { fd: 3 }, Some(&mut c)).unwrap();
    p.apply(JournalEntry::ThreadSpawned { id: 3 }, Some(&mut c)).unwrap();
    assert_eq!(c.len(), 2);
    assert_eq!(c[0].kind(), EntryKind::MarkedStandardOutput);
    assert!(p.apply(write(8, b"x"), Some(&mut c)).is_err());
    assert_eq!(c.len(), 2);
}

#[test]
fn clear_ethereal_empties_collector() {
    let mut p = player(0);
    let mut c = vec![JournalEntry::ThreadSpawned { id: 1 }];
    p.apply(JournalEntry::ThreadSpawned { id: 1 }, None).unwrap();
    p.clear_ethereal(Some(&mut c));
    assert!(c.is_empty());
    assert!(!p.is_thread_live(1));
    p.clear_ethereal(None);
    assert!(p.is_standard_output(1));
}

#[test]
fn finish_requests_roster_threads() {
    let mut p = player(0);
    p.apply(JournalEntry::ThreadSpawned { id: 10 }, None).unwrap();
    p.apply(JournalEntry::ThreadSpawned { id: 11 }, None).unwrap();
    p.apply(JournalEntry::ThreadSpawned { id: 10 }, None).unwrap();
    assert!(p.finish());
    let mut t = p.into_process().requested_threads();
    t.sort();
    assert_eq!(t, vec![10, 11]);
}
