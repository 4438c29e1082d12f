use multichannel::selector::{next_turn, select, settle};
use multichannel::{Cleanup, DynState, Popped, Selected, Verdict};

#[test]
fn settle_follows_the_pop() {
    match settle(Popped::Message(41), 7) {
        Verdict::Deliver(Selected { value, source }) => {
            assert_eq!(value, 41);
            assert_eq!(source, 7);
        }
        _ => panic!("a message must be delivered"),
    }
    assert!(matches!(settle(Popped::<i32>::Empty, 7), Verdict::Skip));
    assert!(matches!(settle(Popped::<i32>::Disconnected, 7), Verdict::SkipAndClean));
}

#[test]
fn nothing_is_selected_from_an_empty_index() {
    let state = DynState::<i32, u16>::new();
    let cleanup = Cleanup::new();
    assert!(select(&state, &cleanup).is_none());
    assert!(cleanup.take().is_empty());
}

#[test]
fn the_first_class_with_a_message_is_served() {
    let mut state = DynState::<i32, u16>::new();
    let cleanup = Cleanup::new();
    let (low, low_tx) = state.open_channel(5, 1, false, None).unwrap();
    let (high, high_tx) = state.open_channel(2, 1, false, None).unwrap();
    let (_idle, _idle_tx) = state.open_channel(1, 1, false, None).unwrap();
    low_tx.send(50).unwrap();
    high_tx.send(20).unwrap();
    let first = select(&state, &cleanup).unwrap();
    assert_eq!((first.value, first.source), (20, high));
    let second = select(&state, &cleanup).unwrap();
    assert_eq!((second.value, second.source), (50, low));
    assert!(select(&state, &cleanup).is_none());
}

#[test]
fn a_frozen_channel_is_passed_over() {
    let mut state = DynState::<i32, u16>::new();
    let cleanup = Cleanup::new();
    let (frozen, frozen_tx) = state.open_channel(1, 1, true, None).unwrap();
    let (open, open_tx) = state.open_channel(1, 1, false, None).unwrap();
    for x in 0..20 {
        frozen_tx.send(x).unwrap();
        open_tx.send(100 + x).unwrap();
    }
    for x in 0..20 {
        let selected = select(&state, &cleanup).unwrap();
        assert_eq!((selected.value, selected.source), (100 + x, open));
    }
    assert!(select(&state, &cleanup).is_none());
    state.set_frozen(frozen, false);
    let selected = select(&state, &cleanup).unwrap();
    assert_eq!((selected.value, selected.source), (0, frozen));
}

#[test]
fn a_frozen_rendezvous_channel_is_passed_over() {
    let mut state = DynState::<i32, u16>::new();
    let cleanup = Cleanup::new();
    let (_id, sender) = state.open_channel(1, 1, true, Some(0)).unwrap();
    drop(sender);
    assert!(select(&state, &cleanup).is_none());
    assert!(cleanup.take().is_empty());
}

#[test]
fn a_disconnected_channel_is_noted_for_cleanup() {
    let mut state = DynState::<i32, u16>::new();
    let cleanup = Cleanup::new();
    let (dead, dead_tx) = state.open_channel(1, 1, false, Some(0)).unwrap();
    let (live, live_tx) = state.open_channel(1, 1, false, None).unwrap();
    let (_waiting, _waiting_tx) = state.open_channel(1, 1, false, Some(0)).unwrap();
    drop(dead_tx);
    live_tx.send(3).unwrap();
    let selected = select(&state, &cleanup).unwrap();
    assert_eq!((selected.value, selected.source), (3, live));
    assert!(select(&state, &cleanup).is_none());
    assert_eq!(cleanup.take(), vec![dead]);
    assert!(cleanup.take().is_empty());
}

#[test]
fn cleanup_hands_out_each_identifier_once() {
    let cleanup = Cleanup::new();
    cleanup.schedule(4);
    cleanup.schedule(9);
    cleanup.schedule(4);
    let mut ids = cleanup.take();
    ids.sort_unstable();
    assert_eq!(ids, vec![4, 9]);
    assert!(cleanup.take().is_empty());
}

#[test]
fn every_message_of_a_group_comes_out_once() {
    let mut state = DynState::<u32, u16>::new();
    let cleanup = Cleanup::new();
    let mut senders = Vec::new();
    for weight in 1..=12u32 {
        senders.push(state.open_channel(3, weight, false, None).unwrap());
    }
    for (id, sender) in &senders {
        sender.send(*id * 10).unwrap();
        sender.send(*id * 10 + 1).unwrap();
    }
    let mut seen = Vec::new();
    let mut last_of = std::collections::HashMap::new();
    while let Some(selected) = select(&state, &cleanup) {
        assert_eq!(selected.value / 10, selected.source);
        if let Some(previous) = last_of.insert(selected.source, selected.value) {
            assert!(previous < selected.value);
        }
        seen.push(selected.value);
    }
    seen.sort_unstable();
    let mut expected: Vec<u32> = (0..12).flat_map(|id| [id * 10, id * 10 + 1]).collect();
    expected.sort_unstable();
    assert_eq!(seen, expected);
}

#[test]
fn groups_take_their_turns_from_the_first_to_the_last() {
    assert_eq!(next_turn(None, 0), None);
    assert_eq!(next_turn(None, 3), Some(0));
    assert_eq!(next_turn(Some(0), 3), Some(1));
    assert_eq!(next_turn(Some(1), 3), Some(2));
    assert_eq!(next_turn(Some(2), 3), None);
    assert_eq!(next_turn(Some(0), 1), None);
    assert_eq!(next_turn(Some(usize::MAX - 1), usize::MAX), None);
}

#[test]
fn the_best_class_with_a_message_wins_whatever_the_weights() {
    let mut state = DynState::<char, u16>::new();
    let cleanup = Cleanup::new();
    let (_heavy, heavy_tx) = state.open_channel(7, 10, false, None).unwrap();
    let (_light, light_tx) = state.open_channel(7, 1, false, None).unwrap();
    let (high, high_tx) = state.open_channel(2, 1, false, None).unwrap();
    for _ in 0..50 {
        heavy_tx.send('A').unwrap();
        light_tx.send('B').unwrap();
        high_tx.send('C').unwrap();
        let first = select(&state, &cleanup).unwrap();
        assert_eq!((first.value, first.source), ('C', high));
        assert!(select(&state, &cleanup).is_some());
        assert!(select(&state, &cleanup).is_some());
        assert!(select(&state, &cleanup).is_none());
    }
}
