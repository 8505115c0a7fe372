use ramon::{ThresholdRing, UniqueSet};

#[test]
fn store_round_trip_gives_same_set() {
    let mut u = UniqueSet::new();
    assert!(u.insert("alice".to_string()));
    assert!(u.insert("bob".to_string()));
    assert!(!u.insert("alice".to_string()));
    assert!(u.insert(String::new()));
    assert!(u.insert("zoë".to_string()));
    let bytes = u.render();
    assert_eq!(bytes, "alice\nbob\n\nzoë\n".as_bytes().to_vec());
    let back = UniqueSet::load(&bytes).unwrap();
    let mut a = u.values.clone();
    let mut b = back.values.clone();
    a.sort();
    b.sort();
    assert_eq!(a, b);
}

#[test]
fn store_load_reads_lines_and_merges_duplicates() {
    let u = UniqueSet::load(&b"x\ny\nx".to_vec()).unwrap();
    assert_eq!(u.values, vec!["x".to_string(), "y".to_string()]);
    assert!(u.contains(&"y".to_string()));
    assert!(!u.contains(&"z".to_string()));
    let empty = UniqueSet::load(&Vec::new()).unwrap();
    assert!(empty.values.is_empty());
}

#[test]
fn store_load_rejects_invalid_utf8() {
    assert!(UniqueSet::load(&vec![b'o', b'k', b'\n', 0xc3]).is_none());
}

#[test]
fn threshold_ring_keeps_last_n() {
    let mut r = ThresholdRing::new(3, 500);
    assert!(!r.record(100));
    assert!(!r.record(200));
    assert!(r.record(300));
    assert!(r.record(400));
    assert!(!r.record(1000));
    assert!(!r.record(1100));
    assert!(r.record(1200));
}

#[test]
fn threshold_ring_of_zero_always_fires() {
    let mut r = ThresholdRing::new(0, 10);
    assert!(r.record(5));
    assert!(r.history.is_empty());
}
