use ramon::lines::split_lines;
use ramon::{ChangeKind, SizeCheck, TailState};

const MIB: u64 = 1024 * 1024;

#[test]
fn oversized_chunk_is_skipped() {
    let mut t = TailState::at_end(100);
    let new_size = 100 + 2 * MIB;
    assert_eq!(t.on_size(new_size), SizeCheck::Oversized);
    assert_eq!(t.cursor, new_size);
    assert_eq!(t.chunk_range(new_size, b'\n'), None);
}

#[test]
fn chunk_of_exactly_one_mib_is_read() {
    let mut t = TailState::at_end(0);
    assert_eq!(t.on_size(MIB), SizeCheck::ReadLastByte(MIB - 1));
    assert_eq!(t.cursor, 0);
    assert_eq!(t.chunk_range(MIB, b'\n'), Some((0, MIB - 1)));
}

#[test]
fn truncation_emits_nothing_and_resumes_from_new_end() {
    let mut t = TailState::at_end(100);
    assert_eq!(t.on_size(40), SizeCheck::Truncated);
    assert_eq!(t.cursor, 40);
    assert_eq!(t.on_size(40), SizeCheck::Unchanged);
    assert_eq!(t.on_size(52), SizeCheck::ReadLastByte(51));
    assert_eq!(t.chunk_range(52, b'\n'), Some((40, 11)));
    let lines = t.take_chunk(52, &b"fresh line!".to_vec());
    assert_eq!(lines, vec!["fresh line!".to_string()]);
    assert_eq!(t.cursor, 52);
}

#[test]
fn appended_lines_come_out_once_in_order() {
    let mut t = TailState::at_end(0);
    let data = b"INFO ok\nERROR boom\n";
    let size = data.len() as u64;
    assert_eq!(t.on_size(size), SizeCheck::ReadLastByte(size - 1));
    let (offset, len) = t.chunk_range(size, data[data.len() - 1]).unwrap();
    let body = data[offset as usize..(offset + len) as usize].to_vec();
    let lines = t.take_chunk(size, &body);
    assert_eq!(lines, vec!["INFO ok".to_string(), "ERROR boom".to_string()]);
    assert_eq!(t.cursor, size);
    assert_eq!(t.on_size(size), SizeCheck::Unchanged);
}

#[test]
fn partial_line_waits_without_moving_cursor() {
    let mut t = TailState::at_end(10);
    assert_eq!(t.on_size(15), SizeCheck::ReadLastByte(14));
    assert_eq!(t.chunk_range(15, b'x'), None);
    assert_eq!(t.cursor, 10);
}

#[test]
fn empty_line_is_emitted() {
    let mut t = TailState::at_end(5);
    let lines = t.take_chunk(6, &Vec::new());
    assert_eq!(lines, vec![String::new()]);
    assert_eq!(t.cursor, 6);
}

#[test]
fn invalid_utf8_chunk_is_dropped_but_cursor_advances() {
    let mut t = TailState::at_end(0);
    let lines = t.take_chunk(5, &vec![b'a', b'\n', 0xff, 0xfe]);
    assert!(lines.is_empty());
    assert_eq!(t.cursor, 5);
}

#[test]
fn rotation_restarts_from_zero() {
    assert!(TailState::needs_reopen(ChangeKind::RenameFrom));
    assert!(TailState::needs_reopen(ChangeKind::MetadataAny));
    assert!(!TailState::needs_reopen(ChangeKind::Other));
    let mut t = TailState::at_end(300);
    t.reopened();
    assert_eq!(t.cursor, 0);
    assert_eq!(t.on_size(6), SizeCheck::ReadLastByte(5));
    assert_eq!(t.take_chunk(6, &b"after".to_vec()), vec!["after".to_string()]);
}

#[test]
fn rotation_deadline_is_one_second() {
    assert!(!TailState::rotation_timed_out(1000, 2000));
    assert!(TailState::rotation_timed_out(1000, 2001));
    assert!(!TailState::rotation_timed_out(5000, 10));
}

#[test]
fn split_lines_keeps_empty_pieces() {
    let pieces = split_lines(&b"a\n\nbc".to_vec());
    assert_eq!(pieces, vec![b"a".to_vec(), Vec::new(), b"bc".to_vec()]);
    assert_eq!(split_lines(&Vec::new()), vec![Vec::<u8>::new()]);
}
