use wasix_journal::entry::{EntryKind, ErrorKind};
use wasix_journal::idset::IdSet;
use wasix_journal::process::{DescriptorKind, ProcessImage};
use wasix_journal::registry::DescriptorRegistry;
use wasix_journal::roster::ThreadRoster;
use wasix_journal::stdio::{append_bytes, StdioAccumulator};

#[test]
fn registry_marks_are_disjoint_and_idempotent() {
    let mut r = DescriptorRegistry::new();
    assert!(r.is_standard_output(1) && r.is_standard_error(2));
    r.mark_as_standard_output(5);
    r.mark_as_standard_output(5);
    assert_eq!(r.output_descriptors().len(), 2);
    r.mark_as_standard_error(5);
    assert!(!r.is_standard_output(5));
    assert!(r.is_standard_error(5));
    r.unmark(5);
    assert!(!r.is_standard_error(5));
    r.unmark(1);
    r.reset();
    assert_eq!(r.output_descriptors(), vec![1]);
    assert_eq!(r.error_descriptors(), vec![2]);
}

#[test]
fn stdio_accumulates_in_order() {
    let mut s = StdioAccumulator::new();
    s.append_output(&b"ab".to_vec());
    s.append_error(&b"x".to_vec());
    s.append_output(&b"cd".to_vec());
    assert_eq!(s.snapshot(), (b"abcd".to_vec(), b"x".to_vec()));
    assert_eq!(s.drain(), (b"abcd".to_vec(), b"x".to_vec()));
    assert_eq!(s.snapshot(), (Vec::new(), Vec::new()));
    s.append_output(&b"z".to_vec());
    s.reset();
    assert_eq!(s.snapshot(), (Vec::new(), Vec::new()));
}

#[test]
fn append_bytes_concatenates() {
    let mut v = vec![1u8];
    append_bytes(&mut v, &vec![2, 3]);
    append_bytes(&mut v, &vec![]);
    assert_eq!(v, vec![1, 2, 3]);
}

#[test]
fn roster_reports_unknown_exits() {
    let mut r = ThreadRoster::new();
    r.record_spawn(1);
    r.record_spawn(1);
    assert_eq!(r.live_threads(), vec![1]);
    assert!(r.record_exit(1));
    assert!(!r.record_exit(1));
    r.record_spawn(2);
    r.reset();
    assert!(!r.is_live(2));
}

#[test]
fn idset_insert_remove() {
    let mut s = IdSet::new();
    s.insert(3);
    s.insert(4);
    s.insert(3);
    assert!(s.contains(3) && s.contains(4));
    assert!(s.remove(3));
    assert!(!s.remove(3));
    assert!(!s.contains(3));
    assert_eq!(s.to_vec(), vec![4]);
    s.clear();
    assert!(s.to_vec().is_empty());
}

#[test]
fn process_descriptor_table() {
    let mut p = ProcessImage::new(0);
    p.write_descriptor(1, &b"x".to_vec());
    assert_eq!(p.descriptor_data(1), Some(b"x".to_vec()));
    p.open_descriptor(7, DescriptorKind::Socket);
    p.write_descriptor(7, &b"ab".to_vec());
    p.open_descriptor(7, DescriptorKind::Pipe);
    assert_eq!(p.descriptor_data(7), Some(b"ab".to_vec()));
    p.close_descriptor(7);
    assert_eq!(p.descriptor_data(7), None);
    p.close_descriptor(7);
    assert!(p.has_descriptor(1));
    p.spawn_thread(3);
    assert_eq!(p.requested_threads(), vec![3]);
}

#[test]
fn entry_tags_round_trip_and_unknown_tag_fails() {
    for tag in 0..12u32 {
        assert_eq!(EntryKind::from_tag(tag).unwrap().tag(), tag);
    }
    assert_eq!(EntryKind::from_tag(3), Ok(EntryKind::MemoryChanged));
    assert_eq!(EntryKind::from_tag(12), Err(ErrorKind::UnknownEntryKind));
    assert_eq!(EntryKind::from_tag(u32::MAX), Err(ErrorKind::UnknownEntryKind));
}

#[test]
fn descriptor_kind_codes() {
    assert_eq!(DescriptorKind::from_code(1), Ok(DescriptorKind::Socket));
    assert_eq!(DescriptorKind::from_code(3), Ok(DescriptorKind::Stdio));
    assert_eq!(DescriptorKind::from_code(4), Err(ErrorKind::DecodeError));
}
