use multichannel::{DynMultiReceiver, ReceiveError, SendError};
use rand::prelude::SliceRandom;

#[test]
fn creation_destruction() {
    let amount = 1000;
    let mrx = DynMultiReceiver::<i32, u16>::new();
    let mut senders = Vec::new();
    for _ in 0..amount {
        senders.push(mrx.new_channel(10, 10, false, None).unwrap());
    }
    senders.shuffle(&mut rand::thread_rng());
    for sender in senders {
        mrx.remove_channel(&sender);
    }
}

#[test]
fn send_recv_unbounded() {
    let mrx = DynMultiReceiver::<i32, u16>::new();
    let sender = mrx.new_channel(10, 10, false, None).unwrap();
    let sender_high_prio = mrx.new_channel(1, 10, false, None).unwrap();
    for x in 0..100 {
        sender.send(100 + x).unwrap();
    }
    for x in 0..100 {
        sender_high_prio.send(x).unwrap();
    }
    for x in 0..199 {
        assert_eq!(mrx.receive(), Ok(x));
    }
}

#[test]
fn send_recv_bounded() {
    let mrx = DynMultiReceiver::<i32, u16>::new();
    let sender = mrx.new_channel(10, 10, false, Some(100)).unwrap();
    let sender_high_prio = mrx.new_channel(1, 10, false, Some(100)).unwrap();
    for x in 0..100 {
        sender.send(100 + x).unwrap();
    }
    for x in 0..100 {
        sender_high_prio.send(x).unwrap();
    }
    for x in 0..199 {
        assert_eq!(mrx.receive(), Ok(x));
    }
}

#[test]
fn freeze_unfreeze() {
    let mrx = DynMultiReceiver::<i32, u16>::new();
    let sender = mrx.new_channel(10, 10, false, None).unwrap();
    let sender_high_prio = mrx.new_channel(1, 10, false, None).unwrap();

    for x in 100..200 {
        sender.send(x).unwrap();
    }
    for x in 0..100 {
        sender_high_prio.send(x).unwrap();
    }

    for x in 0..50 {
        assert_eq!(mrx.receive(), Ok(x));
    }
    sender_high_prio.set_frozen(true);
    for x in 100..150 {
        assert_eq!(mrx.receive(), Ok(x));
    }
    sender_high_prio.set_frozen(false);
    for x in 50..100 {
        assert_eq!(mrx.receive(), Ok(x));
    }
    for x in 150..200 {
        assert_eq!(mrx.receive(), Ok(x));
    }
}

#[test]
fn disconnect() {
    let mrx = DynMultiReceiver::<i32, u16>::new();
    let sender = mrx.new_channel(10, 10, false, None).unwrap();
    mrx.remove_channel(&sender);
    assert!(mrx.no_channels());
    assert!(sender.send(0).is_err());
}

#[test]
fn drop_mrx() {
    let mrx = DynMultiReceiver::<i32, u16>::new();
    let sender = mrx.new_channel(10, 10, false, None).unwrap();
    drop(mrx);
    assert!(sender.send(0).is_err());
}

#[test]
fn strict_priority_between_two_classes() {
    let mrx = DynMultiReceiver::<&'static str, u8>::new();
    let high = mrx.new_channel(0, 1, false, None).unwrap();
    let low = mrx.new_channel(1, 1, false, None).unwrap();
    low.send("mid").unwrap();
    high.send("hi").unwrap();
    assert_eq!(mrx.receive(), Ok("hi"));
    assert_eq!(mrx.receive(), Ok("mid"));
}

#[test]
fn send_errors_are_disconnected() {
    let mrx = DynMultiReceiver::<i32, u16>::new();
    let sender = mrx.new_channel(10, 10, false, None).unwrap();
    mrx.remove_channel(&sender);
    assert_eq!(sender.send(7), Err(SendError::Disconnected));
    let other = mrx.new_channel(10, 10, false, Some(1)).unwrap();
    drop(mrx);
    assert_eq!(other.send(7), Err(SendError::Disconnected));
}

#[test]
fn all_senders_dropped_after_the_buffer_is_drained() {
    let mrx = DynMultiReceiver::<i32, u16>::new();
    let sender = mrx.new_channel(3, 1, false, None).unwrap();
    let twin = sender.clone();
    sender.send(1).unwrap();
    twin.send(2).unwrap();
    drop(sender);
    drop(twin);
    assert_eq!(mrx.receive(), Ok(1));
    assert_eq!(mrx.receive(), Ok(2));
    assert_eq!(mrx.receive(), Err(ReceiveError::AllSendersDropped));
    assert_eq!(mrx.receive(), Err(ReceiveError::AllSendersDropped));
}

#[test]
fn weights_decide_within_a_class() {
    let mrx = DynMultiReceiver::<char, u8>::new();
    let high = mrx.new_channel(0, 1, false, None).unwrap();
    let heavy = mrx.new_channel(1, 10, false, None).unwrap();
    let light = mrx.new_channel(1, 1, false, None).unwrap();
    heavy.send('A').unwrap();
    light.send('B').unwrap();
    high.send('C').unwrap();
    assert_eq!(mrx.receive(), Ok('C'));
    let first = mrx.receive().unwrap();
    let second = mrx.receive().unwrap();
    assert!((first, second) == ('A', 'B') || (first, second) == ('B', 'A'));

    let mut heavy_first = 0;
    for _ in 0..10_000 {
        heavy.send('A').unwrap();
        light.send('B').unwrap();
        let first = mrx.receive().unwrap();
        let second = mrx.receive().unwrap();
        if first == 'A' {
            heavy_first += 1;
            assert_eq!(second, 'B');
        } else {
            assert_eq!((first, second), ('B', 'A'));
        }
    }
    assert!((9000..=9900).contains(&heavy_first), "heavy first: {}", heavy_first);
}

#[test]
fn a_huge_weight_ratio_is_tolerated() {
    let mrx = DynMultiReceiver::<u8, u8>::new();
    let heavy = mrx.new_channel(0, 400_000_000, false, None).unwrap();
    let light = mrx.new_channel(0, 1, false, None).unwrap();
    for _ in 0..10_000 {
        heavy.send(0).unwrap();
        light.send(1).unwrap();
    }
    let mut from_light = 0;
    for _ in 0..500 {
        if mrx.receive() == Ok(1) {
            from_light += 1;
        }
    }
    assert!(from_light <= 2, "from the light channel: {}", from_light);
}

#[test]
fn the_largest_weights_do_not_overflow() {
    let mrx = DynMultiReceiver::<u32, u8>::new();
    let mut senders = Vec::new();
    for n in 0..6u32 {
        let sender = mrx.new_channel(0, u32::MAX, false, None).unwrap();
        sender.send(n).unwrap();
        senders.push(sender);
    }
    let mut seen: Vec<u32> = (0..6).map(|_| mrx.receive().unwrap()).collect();
    seen.sort_unstable();
    assert_eq!(seen, vec![0, 1, 2, 3, 4, 5]);
}

#[test]
fn a_frozen_high_priority_channel_waits_for_its_unfreeze() {
    let mrx = DynMultiReceiver::<&'static str, u8>::new();
    let high = mrx.new_channel(0, 1, false, None).unwrap();
    let low = mrx.new_channel(1, 1, false, None).unwrap();
    high.freeze();
    high.send("hi").unwrap();
    low.send("lo").unwrap();
    assert_eq!(mrx.receive(), Ok("lo"));
    high.unfreeze();
    assert_eq!(mrx.receive(), Ok("hi"));
}

#[test]
fn a_channel_can_start_out_frozen() {
    let mrx = DynMultiReceiver::<i32, u8>::new();
    let sender = mrx.new_channel(0, 1, true, None).unwrap();
    sender.send(1).unwrap();
    sender.send(2).unwrap();
    assert_eq!(mrx.receive(), Err(ReceiveError::NothingEligible));
    assert_eq!(mrx.receive(), Err(ReceiveError::NothingEligible));
    assert_eq!(mrx.pending_count(), 2);
    sender.unfreeze();
    assert_eq!(mrx.receive(), Ok(1));
    sender.send(3).unwrap();
    assert_eq!(mrx.receive(), Ok(2));
}

#[test]
fn freezing_a_removed_channel_does_nothing() {
    let mrx = DynMultiReceiver::<i32, u8>::new();
    let sender = mrx.new_channel(0, 1, false, None).unwrap();
    mrx.remove_channel_by_id(sender.id());
    sender.set_frozen(true);
    sender.set_frozen(false);
    mrx.remove_channel(&sender);
    mrx.remove_channel_by_id(12345);
    assert!(mrx.no_channels());
}

#[test]
fn identifiers_count_up_and_capacities_are_kept() {
    let mrx = DynMultiReceiver::<i32, u8>::new();
    let first = mrx.new_channel(3, 1, false, None).unwrap();
    let second = mrx.new_channel(1, 1, false, Some(0)).unwrap();
    let third = mrx.new_channel(2, 1, false, Some(17)).unwrap();
    assert_eq!((first.id(), second.id(), third.id()), (0, 1, 2));
    assert_eq!(first.capacity(), None);
    assert_eq!(second.capacity(), Some(0));
    assert_eq!(third.capacity(), Some(17));
    let twin = third.clone();
    assert_eq!(twin.id(), 2);
    assert_eq!(twin.capacity(), Some(17));
    assert!(!mrx.no_channels());
}

#[test]
fn a_capacity_that_cannot_be_allocated_gives_no_channel() {
    let mrx = DynMultiReceiver::<[u8; 64], u8>::new();
    assert!(mrx.new_channel(0, 1, false, Some(usize::MAX)).is_none());
    assert!(mrx.new_channel(0, 1, false, Some(isize::MAX as usize / 64)).is_none());
    assert!(mrx.no_channels());
    assert!(mrx.new_channel(0, 1, false, Some(4)).is_some());
}

#[test]
fn a_bounded_channel_takes_as_many_as_it_holds() {
    let mrx = DynMultiReceiver::<i32, u8>::new();
    let sender = mrx.new_channel(0, 1, false, Some(3)).unwrap();
    for x in 0..3 {
        sender.send(x).unwrap();
    }
    assert_eq!(sender.pending_by_channel(), 3);
    for x in 0..3 {
        assert_eq!(mrx.receive(), Ok(x));
    }
}

#[test]
fn clones_of_the_consumer_share_the_bundle() {
    let mrx = DynMultiReceiver::<i32, u16>::new();
    let twin = mrx.clone();
    let sender = twin.new_channel(10, 10, false, None).unwrap();
    sender.send(1).unwrap();
    sender.send(2).unwrap();
    assert_eq!(mrx.receive(), Ok(1));
    drop(mrx);
    sender.send(3).unwrap();
    assert_eq!(twin.receive(), Ok(2));
    assert_eq!(twin.receive(), Ok(3));
    drop(twin);
    assert_eq!(sender.send(4), Err(SendError::Disconnected));
}

#[test]
fn a_dropped_producer_is_cleaned_up_by_a_later_receive() {
    let mrx = DynMultiReceiver::<i32, u16>::new();
    let rendezvous = mrx.new_channel(1, 1, false, Some(0)).unwrap();
    let other = mrx.new_channel(2, 1, false, None).unwrap();
    drop(rendezvous);
    other.send(5).unwrap();
    assert_eq!(mrx.receive(), Ok(5));
    other.send(6).unwrap();
    assert_eq!(mrx.receive(), Ok(6));
    assert!(!mrx.no_channels());
    mrx.remove_channel(&other);
    assert!(mrx.no_channels());
    drop(other);
    assert_eq!(mrx.receive(), Err(ReceiveError::AllSendersDropped));
    assert_eq!(mrx.receive(), Err(ReceiveError::AllSendersDropped));
}

#[test]
fn a_new_producer_ends_the_terminal_state() {
    let mrx = DynMultiReceiver::<i32, u16>::new();
    let first = mrx.new_channel(1, 1, false, None).unwrap();
    drop(first);
    assert_eq!(mrx.receive(), Err(ReceiveError::AllSendersDropped));
    let second = mrx.new_channel(1, 1, false, None).unwrap();
    second.send(9).unwrap();
    assert_eq!(mrx.receive(), Ok(9));
    drop(second);
    assert_eq!(mrx.receive(), Err(ReceiveError::AllSendersDropped));
}

#[test]
fn per_channel_order_is_kept() {
    let mrx = DynMultiReceiver::<(u32, u32), u8>::new();
    let senders: Vec<_> = (0..5u32)
        .map(|n| mrx.new_channel((n % 2) as u8, n + 1, false, None).unwrap())
        .collect();
    for round in 0..50u32 {
        for (n, sender) in senders.iter().enumerate() {
            sender.send((n as u32, round)).unwrap();
        }
    }
    let mut next = [0u32; 5];
    for _ in 0..250 {
        let (channel, round) = mrx.receive().unwrap();
        assert_eq!(round, next[channel as usize]);
        next[channel as usize] += 1;
    }
    assert_eq!(next, [50; 5]);
}

#[test]
fn channels_come_and_go() {
    let mrx = DynMultiReceiver::<i32, u16>::new();
    for round in 0..256u32 {
        for step in 0..256u32 {
            let sender = mrx.new_channel((step % 7) as u16, 10, false, None).unwrap();
            assert_eq!(sender.id(), round * 256 + step);
            mrx.remove_channel(&sender);
        }
    }
    assert!(mrx.no_channels());
}

#[derive(Debug, PartialEq)]
enum Msg {
    Shutdown,
    IntegerData(i32),
    FloatingData(f32),
}

#[derive(Clone, PartialEq, Eq, PartialOrd, Ord)]
enum Urgency {
    High,
    Low,
}

#[test]
fn a_shutdown_overtakes_the_data() {
    let mrx = DynMultiReceiver::<Msg, Urgency>::new();
    let shutdown_sender = mrx.new_channel(Urgency::High, 1, false, Some(1)).unwrap();
    let int_sender = mrx.new_channel(Urgency::Low, 33, false, None).unwrap();
    let float_sender = mrx.new_channel(Urgency::Low, 66, false, None).unwrap();

    int_sender.send(Msg::IntegerData(33)).unwrap();
    int_sender.send(Msg::IntegerData(4031)).unwrap();
    float_sender.send(Msg::FloatingData(3.14)).unwrap();
    int_sender.send(Msg::IntegerData(2)).unwrap();
    float_sender.send(Msg::FloatingData(10.0)).unwrap();
    float_sender.send(Msg::FloatingData(0.0)).unwrap();

    for _ in 0..4 {
        assert!(matches!(
            mrx.receive(),
            Ok(Msg::IntegerData(_)) | Ok(Msg::FloatingData(_))
        ));
    }
    shutdown_sender.send(Msg::Shutdown).unwrap();
    assert_eq!(mrx.receive(), Ok(Msg::Shutdown));
    assert_eq!(mrx.pending_count(), 2);
}

#[test]
fn the_urgent_message_comes_first() {
    let bundle = DynMultiReceiver::<&str, u8>::new();
    let urgent = bundle.new_channel(0, 1, false, Some(1)).unwrap();
    let bulk = bundle.new_channel(1, 10, false, None).unwrap();
    bulk.send("later").unwrap();
    urgent.send("now").unwrap();
    assert_eq!(bundle.receive(), Ok("now"));
    assert_eq!(bundle.receive(), Ok("later"));
}

#[test]
fn unfreezing_wakes_a_consumer_for_what_queued_up() {
    let mrx = DynMultiReceiver::<i32, u8>::new();
    let sender = mrx.new_channel(0, 1, true, None).unwrap();
    sender.send(1).unwrap();
    assert_eq!(mrx.receive(), Err(ReceiveError::NothingEligible));
    sender.unfreeze();
    sender.unfreeze();
    assert_eq!(mrx.receive(), Ok(1));
    drop(sender);
    assert_eq!(mrx.receive(), Err(ReceiveError::AllSendersDropped));
}

#[test]
fn removing_says_whether_the_channel_was_there() {
    let mrx = DynMultiReceiver::<i32, u8>::new();
    let sender = mrx.new_channel(0, 1, false, None).unwrap();
    assert!(!mrx.remove_channel_by_id(sender.id() + 1));
    assert!(mrx.remove_channel(&sender));
    assert!(!mrx.remove_channel(&sender));
    assert!(!mrx.remove_channel_by_id(sender.id()));
    assert!(mrx.no_channels());
}

#[test]
fn freezing_says_whether_the_channel_was_there() {
    let mrx = DynMultiReceiver::<i32, u8>::new();
    let sender = mrx.new_channel(0, 1, false, None).unwrap();
    assert!(sender.set_frozen(true));
    assert!(sender.unfreeze());
    assert!(sender.freeze());
    assert!(mrx.remove_channel(&sender));
    assert!(!sender.set_frozen(false));
    assert!(!sender.freeze());
    assert!(!sender.unfreeze());
}
