use hardlight::codec::{decode_u32, encode_u32};
use hardlight::state::{apply_all, changes_between, update_between, ConnectionState, StateGuard};
use hardlight::RpcHandlerError;

/// A state with three numbers.
#[derive(Clone, Copy, Debug, PartialEq)]
struct Three([u32; 3]);

impl ConnectionState for Three {
    fn fields() -> usize {
        3
    }

    fn field_differs(&self, other: &Self, index: usize) -> bool {
        self.0[index] != other.0[index]
    }

    fn encode_field(&self, index: usize) -> Vec<u8> {
        encode_u32(self.0[index])
    }

    fn decode_field(&mut self, index: usize, bytes: &[u8]) -> bool {
        match decode_u32(bytes) {
            Some(value) => {
                self.0[index] = value;
                true
            }
            None => false,
        }
    }
}

#[test]
fn the_fields_that_differ_are_sent_in_order() {
    let changes = changes_between(&Three([1, 2, 3]), &Three([7, 2, 8]));
    assert_eq!(changes, vec![(0, vec![7, 0, 0, 0]), (2, vec![8, 0, 0, 0])]);
}

#[test]
fn nothing_is_sent_where_nothing_differs() {
    assert_eq!(changes_between(&Three([1, 2, 3]), &Three([1, 2, 3])), vec![]);
}

#[test]
fn applying_the_changes_brings_a_copy_up_to_date() {
    for (start, end) in [([1, 2, 3], [7, 2, 8]), ([0, 0, 0], [0, 0, 0]), ([9, 9, 9], [1, 2, 3])] {
        let changes = changes_between(&Three(start), &Three(end));
        let mut copy = Three(start);
        assert_eq!(apply_all(&mut copy, changes), Ok(()));
        assert_eq!(copy, Three(end));
    }
}

#[test]
fn a_copy_follows_one_change_after_another() {
    let states = [[0, 0, 0], [1, 0, 0], [1, 5, 0], [0, 5, 6], [2, 2, 2]];
    let mut copy = Three(states[0]);
    for k in 1..states.len() {
        let changes = changes_between(&Three(states[k - 1]), &Three(states[k]));
        assert_eq!(apply_all(&mut copy, changes), Ok(()));
        assert_eq!(copy, Three(states[k]));
    }
}

#[test]
fn changes_to_unknown_fields_are_passed_over() {
    let mut state = Three([1, 2, 3]);
    let changes = vec![(3, vec![9, 0, 0, 0]), (1, vec![9, 0, 0, 0]), (usize::MAX, vec![])];
    assert_eq!(apply_all(&mut state, changes), Ok(()));
    assert_eq!(state, Three([1, 9, 3]));
}

#[test]
fn a_change_that_cannot_be_read_ends_the_changes() {
    let mut state = Three([1, 2, 3]);
    let changes = vec![(0, vec![9, 0, 0, 0]), (1, vec![9]), (2, vec![9, 0, 0, 0])];
    assert_eq!(apply_all(&mut state, changes), Err(RpcHandlerError::BadInputBytes));
    assert_eq!(state, Three([9, 2, 3]));
}

#[test]
fn unlocking_gives_the_changes_made_since_locking() {
    let mut guard = StateGuard::lock(Three([1, 2, 3]));
    guard.state.0[1] = 20;
    guard.state.0[0] = 10;
    guard.state.0[0] = 1;
    let (state, changes) = guard.unlock();
    assert_eq!(state, Three([1, 20, 3]));
    assert_eq!(changes, Some(vec![(1, vec![20, 0, 0, 0])]));
}

#[test]
fn applying_changes_twice_is_applying_them_once() {
    let changes = || changes_between(&Three([1, 2, 3]), &Three([7, 2, 8]));
    let mut state = Three([1, 2, 3]);
    assert_eq!(apply_all(&mut state, changes()), Ok(()));
    assert_eq!(apply_all(&mut state, changes()), Ok(()));
    assert_eq!(state, Three([7, 2, 8]));
}

#[test]
fn an_update_is_sent_only_where_something_differs() {
    assert_eq!(update_between(&Three([1, 2, 3]), &Three([1, 2, 3])), None);
    assert_eq!(
        update_between(&Three([1, 2, 3]), &Three([1, 9, 3])),
        Some(vec![(1, vec![9, 0, 0, 0])])
    );
    let guard = StateGuard::lock(Three([1, 2, 3]));
    assert_eq!(guard.unlock().1, None);
}
