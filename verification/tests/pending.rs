use multichannel::pending::{pending_in, pending_total, take_census};
use multichannel::{DynMultiReceiver, DynState, Tally};

#[test]
fn the_total_adds_up_the_census() {
    let census = vec![
        Tally { id: 4, queued: 3 },
        Tally { id: 1, queued: 0 },
        Tally { id: 9, queued: 12 },
    ];
    assert_eq!(pending_total(&census), 15);
    assert_eq!(pending_in(&census, 4), 3);
    assert_eq!(pending_in(&census, 1), 0);
    assert_eq!(pending_in(&census, 9), 12);
    assert_eq!(pending_in(&census, 5), 0);
    assert_eq!(pending_total(&vec![]), 0);
}

#[test]
fn the_total_is_the_sum_of_the_channels() {
    let census = vec![
        Tally { id: 0, queued: 7 },
        Tally { id: 1, queued: 8 },
        Tally { id: 2, queued: 9 },
    ];
    let by_channel: usize = census.iter().map(|tally| pending_in(&census, tally.id)).sum();
    assert_eq!(pending_total(&census), by_channel);
}

#[test]
fn the_total_stops_at_the_largest_number() {
    let census = vec![
        Tally { id: 0, queued: usize::MAX - 1 },
        Tally { id: 1, queued: 5 },
        Tally { id: 2, queued: 5 },
    ];
    assert_eq!(pending_total(&census), usize::MAX);
}

#[test]
fn a_census_sees_every_channel_once() {
    let mut state = DynState::<i32, u16>::new();
    let (a, a_tx) = state.open_channel(2, 1, false, None).unwrap();
    let (b, b_tx) = state.open_channel(1, 1, true, Some(5)).unwrap();
    let (c, _c_tx) = state.open_channel(2, 1, false, Some(0)).unwrap();
    a_tx.send(1).unwrap();
    b_tx.send(1).unwrap();
    b_tx.send(2).unwrap();
    let census = take_census(&state);
    assert_eq!(
        census,
        vec![
            Tally { id: b, queued: 2 },
            Tally { id: a, queued: 1 },
            Tally { id: c, queued: 0 }
        ]
    );
    assert_eq!(pending_total(&census), 3);
}

#[test]
fn pending_counts_follow_sends_and_receives() {
    let mrx = DynMultiReceiver::<i32, u16>::new();
    let first = mrx.new_channel(1, 1, false, None).unwrap();
    let second = mrx.new_channel(2, 1, false, Some(8)).unwrap();
    assert_eq!(mrx.pending_count(), 0);
    for x in 0..5 {
        first.send(x).unwrap();
    }
    for x in 0..3 {
        second.send(x).unwrap();
    }
    assert_eq!(mrx.pending_count(), 8);
    assert_eq!(mrx.pending_by_channel(first.id()), 5);
    assert_eq!(mrx.pending_by_channel(second.id()), 3);
    assert_eq!(first.pending_by_channel(), 5);
    assert_eq!(second.pending_by_channel(), 3);
    assert_eq!(mrx.pending_by_channel(99), 0);
    assert_eq!(
        mrx.pending_count(),
        mrx.pending_by_channel(first.id()) + mrx.pending_by_channel(second.id())
    );
    for received in 1..=8 {
        assert!(mrx.receive().is_ok());
        assert_eq!(mrx.pending_count(), 8 - received);
    }
}
