use wasix_journal::differ::MemoryDiffer;
use wasix_journal::process::ProcessImage;

fn direct(mem: &mut Vec<u8>, writes: &[(u64, Vec<u8>)]) {
    for (off, data) in writes {
        for (i, b) in data.iter().enumerate() {
            mem[*off as usize + i] = *b;
        }
    }
}

#[test]
fn overlapping_writes_commit_like_direct_writes() {
    let writes = vec![
        (0u64, vec![1u8, 1, 1, 1]),
        (2, vec![2, 2, 2]),
        (1, vec![3]),
        (4, vec![4, 4, 4, 4]),
        (3, vec![5, 5]),
    ];
    let mut d = MemoryDiffer::new();
    for (off, data) in &writes {
        d.stage(*off, data.clone());
    }
    assert_eq!(d.len(), 5);
    let mut p = ProcessImage::new(8);
    assert_eq!(d.commit(&mut p), Ok(()));
    assert_eq!(d.len(), 0);
    let mut reference = vec![0u8; 8];
    direct(&mut reference, &writes);
    assert_eq!(p.memory_bytes(), reference);
    assert_eq!(p.memory_bytes(), vec![1, 3, 2, 5, 5, 4, 4, 4]);
}

#[test]
fn commit_refuses_any_write_out_of_bounds() {
    let mut d = MemoryDiffer::new();
    d.stage(0, vec![1, 2]);
    d.stage(3, vec![1, 2]);
    d.stage(9, vec![]);
    let mut p = ProcessImage::new(4);
    assert_eq!(d.commit(&mut p), Err(1));
    assert_eq!(d.len(), 3);
    assert_eq!(p.memory_bytes(), vec![0, 0, 0, 0]);
}

#[test]
fn reset_discards_without_applying() {
    let mut d = MemoryDiffer::new();
    d.stage(0, vec![1]);
    d.reset();
    let mut p = ProcessImage::from_memory(vec![5, 6]);
    assert_eq!(d.commit(&mut p), Ok(()));
    assert_eq!(p.memory_bytes(), vec![5, 6]);
}

#[test]
fn write_memory_checks_bounds() {
    let mut p = ProcessImage::new(3);
    assert_eq!(p.write_memory(1, &vec![8, 9]), Ok(()));
    assert_eq!(p.write_memory(2, &vec![8, 9]), Err(()));
    assert_eq!(p.write_memory(u64::MAX, &vec![1]), Err(()));
    assert_eq!(p.memory_bytes(), vec![0, 8, 9]);
    assert_eq!(p.memory_len(), 3);
}
