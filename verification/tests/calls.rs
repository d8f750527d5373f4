use hardlight::bytes::same_bytes;
use hardlight::calls::CallTable;

#[test]
fn ids_are_given_from_the_lowest_free_one() {
    let mut calls: CallTable<&str> = CallTable::new();
    assert_eq!(calls.free_id(), Some(0));
    calls.insert(0, "a");
    assert_eq!(calls.free_id(), Some(1));
    calls.insert(2, "c");
    assert_eq!(calls.free_id(), Some(1));
    calls.insert(1, "b");
    assert_eq!(calls.free_id(), Some(3));
    assert_eq!(calls.take(1), Some("b"));
    assert_eq!(calls.free_id(), Some(1));
}

#[test]
fn a_call_is_taken_once() {
    let mut calls = CallTable::new();
    calls.insert(200, 5u32);
    assert_eq!(calls.take(199), None);
    assert_eq!(calls.take(200), Some(5));
    assert_eq!(calls.take(200), None);
}

#[test]
fn there_are_256_ids() {
    let mut calls = CallTable::new();
    for id in 0..=255u8 {
        assert_eq!(calls.free_id(), Some(id));
        calls.insert(id, id);
    }
    assert_eq!(calls.free_id(), None);
    assert_eq!(calls.take(255), Some(255));
    assert_eq!(calls.free_id(), Some(255));
}

#[test]
fn a_later_call_replaces_an_earlier_one() {
    let mut calls = CallTable::new();
    calls.insert(3, 'x');
    calls.insert(3, 'y');
    assert_eq!(calls.take(3), Some('y'));
}

#[test]
fn byte_strings_are_compared_whole() {
    assert!(same_bytes(b"", b""));
    assert!(same_bytes(b"hl/1", b"hl/1"));
    assert!(!same_bytes(b"hl/1", b"hl/10"));
    assert!(!same_bytes(b"hl/1", b"hl/2"));
}
