use multichannel::{DynReceiver, DynState};

fn open(state: &mut DynState<i32, u16>, priority: u16) -> (u32, crossbeam_channel::Sender<i32>) {
    state.open_channel(priority, 1, false, None).unwrap()
}

#[test]
fn new_index_is_empty() {
    let state = DynState::<i32, u16>::new();
    assert!(state.is_empty());
    assert_eq!(state.group_count(), 0);
    assert!(!state.contains(0));
    assert_eq!(state.position(0), None);
    assert!(state.find(0).is_none());
}

#[test]
fn fresh_ids_count_up_from_zero() {
    let mut state = DynState::<i32, u16>::new();
    assert_eq!(state.fresh_id(), Some(0));
    assert_eq!(state.fresh_id(), Some(1));
    assert_eq!(state.fresh_id(), Some(2));
    assert!(state.is_empty());
}

#[test]
fn add_receiver_keeps_groups_in_ascending_order() {
    let mut state = DynState::<i32, u16>::new();
    for _ in 0..4 {
        state.fresh_id();
    }
    let (first, _tx0) = DynReceiver::<i32>::open(0, 5, false, None);
    let (second, _tx1) = DynReceiver::<i32>::open(1, 6, false, None);
    let (third, _tx2) = DynReceiver::<i32>::open(2, 7, true, Some(3));
    let (fourth, _tx3) = DynReceiver::<i32>::open(3, 8, false, Some(0));
    state.add_receiver(20, first);
    assert_eq!(state.position(0), Some((0, 0)));
    state.add_receiver(10, second);
    assert_eq!(state.position(1), Some((0, 0)));
    assert_eq!(state.position(0), Some((1, 0)));
    state.add_receiver(15, third);
    assert_eq!(state.position(1), Some((0, 0)));
    assert_eq!(state.position(2), Some((1, 0)));
    assert_eq!(state.position(0), Some((2, 0)));
    state.add_receiver(15, fourth);
    assert_eq!(state.position(3), Some((1, 1)));
    assert_eq!(state.group_count(), 3);
    assert_eq!(*state.group(0).priority(), 10);
    assert_eq!(*state.group(1).priority(), 15);
    assert_eq!(*state.group(2).priority(), 20);
    assert_eq!(state.group(1).len(), 2);
    let record = state.group(1).receiver(0);
    assert_eq!(record.id(), 2);
    assert_eq!(record.weight(), 7);
    assert!(record.is_frozen());
    assert_eq!(record.capacity(), Some(3));
    let record = state.find(3).unwrap();
    assert_eq!(record.weight(), 8);
    assert_eq!(record.capacity(), Some(0));
    assert!(!record.is_frozen());
}

#[test]
fn equal_priorities_share_one_group() {
    let mut state = DynState::<i32, u16>::new();
    let (a, _ta) = open(&mut state, 7);
    let (b, _tb) = open(&mut state, 7);
    let (c, _tc) = open(&mut state, 7);
    assert_eq!((a, b, c), (0, 1, 2));
    assert_eq!(state.group_count(), 1);
    assert_eq!(state.position(a), Some((0, 0)));
    assert_eq!(state.position(b), Some((0, 1)));
    assert_eq!(state.position(c), Some((0, 2)));
}

#[test]
fn removing_moves_later_records_up() {
    let mut state = DynState::<i32, u16>::new();
    let (a, _ta) = open(&mut state, 7);
    let (b, _tb) = open(&mut state, 7);
    let (c, _tc) = open(&mut state, 7);
    let (d, _td) = open(&mut state, 9);
    state.remove_receiver(a);
    assert!(!state.contains(a));
    assert_eq!(state.position(b), Some((0, 0)));
    assert_eq!(state.position(c), Some((0, 1)));
    assert_eq!(state.position(d), Some((1, 0)));
    state.remove_receiver(c);
    assert_eq!(state.position(b), Some((0, 0)));
    assert_eq!(state.position(d), Some((1, 0)));
    assert_eq!(state.group(0).len(), 1);
}

#[test]
fn removing_the_last_record_removes_the_group() {
    let mut state = DynState::<i32, u16>::new();
    let (a, _ta) = open(&mut state, 1);
    let (b, _tb) = open(&mut state, 2);
    let (c, _tc) = open(&mut state, 3);
    let (d, _td) = open(&mut state, 3);
    state.remove_receiver(a);
    assert_eq!(state.group_count(), 2);
    assert_eq!(state.position(b), Some((0, 0)));
    assert_eq!(state.position(c), Some((1, 0)));
    assert_eq!(state.position(d), Some((1, 1)));
    state.remove_receiver(d);
    state.remove_receiver(b);
    assert_eq!(state.group_count(), 1);
    assert_eq!(state.position(c), Some((0, 0)));
    state.remove_receiver(c);
    assert!(state.is_empty());
}

#[test]
fn a_removed_channel_disconnects_its_sender() {
    let mut state = DynState::<i32, u16>::new();
    let (id, sender) = open(&mut state, 1);
    assert!(sender.send(1).is_ok());
    state.remove_receiver(id);
    assert!(sender.send(2).is_err());
}

#[test]
fn set_frozen_changes_only_the_flag() {
    let mut state = DynState::<i32, u16>::new();
    let (a, _ta) = state.open_channel(4, 11, false, Some(2)).unwrap();
    let (b, _tb) = state.open_channel(4, 12, false, None).unwrap();
    state.set_frozen(a, true);
    assert!(state.find(a).unwrap().is_frozen());
    assert!(!state.find(b).unwrap().is_frozen());
    assert_eq!(state.find(a).unwrap().weight(), 11);
    assert_eq!(state.find(a).unwrap().capacity(), Some(2));
    assert_eq!(state.position(a), Some((0, 0)));
    assert_eq!(state.position(b), Some((0, 1)));
    state.set_frozen(a, false);
    assert!(!state.find(a).unwrap().is_frozen());
}

#[test]
fn purge_removes_what_is_there_and_ignores_the_rest() {
    let mut state = DynState::<i32, u16>::new();
    let (a, _ta) = open(&mut state, 1);
    let (b, _tb) = open(&mut state, 1);
    let (c, _tc) = open(&mut state, 2);
    state.purge(&vec![c, 77, a, c]);
    assert!(!state.contains(a));
    assert!(!state.contains(c));
    assert_eq!(state.position(b), Some((0, 0)));
    assert_eq!(state.group_count(), 1);
    state.purge(&vec![]);
    assert_eq!(state.group_count(), 1);
}

#[test]
fn open_channel_refuses_a_capacity_that_cannot_be_allocated() {
    let mut state = DynState::<u64, u16>::new();
    assert!(state.open_channel(1, 1, false, Some(usize::MAX)).is_none());
    assert!(state.open_channel(1, 1, false, Some(usize::MAX / 16)).is_none());
    assert!(state.is_empty());
    let (id, _tx) = state.open_channel(1, 1, false, Some(0)).unwrap();
    assert_eq!(id, 0);
    let (id, _tx) = state.open_channel(1, 1, false, Some(16)).unwrap();
    assert_eq!(id, 1);
}

#[test]
fn records_report_what_is_queued() {
    let (record, sender) = DynReceiver::<i32>::open(9, 3, false, Some(4));
    assert_eq!(record.pending(), 0);
    sender.send(1).unwrap();
    sender.send(2).unwrap();
    assert_eq!(record.pending(), 2);
    assert!(matches!(record.pop(), multichannel::Popped::Message(1)));
    assert_eq!(record.pending(), 1);
    assert!(matches!(record.pop(), multichannel::Popped::Message(2)));
    assert!(matches!(record.pop(), multichannel::Popped::Empty));
    drop(sender);
    assert!(matches!(record.pop(), multichannel::Popped::Disconnected));
}

#[test]
fn discard_says_whether_the_channel_was_there() {
    let mut state = DynState::<i32, u16>::new();
    let (a, _ta) = open(&mut state, 1);
    let (b, _tb) = open(&mut state, 2);
    assert!(state.discard(a));
    assert!(!state.discard(a));
    assert!(!state.discard(55));
    assert_eq!(state.position(b), Some((0, 0)));
    assert!(state.discard(b));
    assert!(state.is_empty());
}

#[test]
fn refreeze_returns_the_flag_it_found() {
    let mut state = DynState::<i32, u16>::new();
    let (a, _ta) = state.open_channel(1, 1, true, None).unwrap();
    assert_eq!(state.refreeze(a, true), Some(true));
    assert_eq!(state.refreeze(a, false), Some(true));
    assert_eq!(state.refreeze(a, false), Some(false));
    assert!(!state.find(a).unwrap().is_frozen());
    assert_eq!(state.refreeze(a, true), Some(false));
    assert!(state.find(a).unwrap().is_frozen());
    assert_eq!(state.refreeze(9, true), None);
}

#[test]
fn identifiers_are_not_used_again() {
    let mut state = DynState::<i32, u16>::new();
    let (a, _ta) = open(&mut state, 1);
    state.remove_receiver(a);
    let (b, _tb) = open(&mut state, 1);
    assert_eq!((a, b), (0, 1));
    assert!(!state.contains(a));
    assert!(state.contains(b));
}

#[test]
fn pending_of_an_unknown_channel_is_zero() {
    let mut state = DynState::<i32, u16>::new();
    assert_eq!(state.pending_of(0), 0);
    let (a, a_tx) = open(&mut state, 1);
    a_tx.send(1).unwrap();
    a_tx.send(2).unwrap();
    assert_eq!(state.pending_of(a), 2);
    assert_eq!(state.pending_of(a + 1), 0);
    state.remove_receiver(a);
    assert_eq!(state.pending_of(a), 0);
}
