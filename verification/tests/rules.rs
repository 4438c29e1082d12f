use multichannel::rules::{
    after_pass, conclude_receive, conclude_send, plan_send, signal_after_push,
    signal_before_push, thaw_pulse,
};
use multichannel::priority::{standing, Standing};
use multichannel::record::check_bounds;
use multichannel::selector::is_eligible;
use multichannel::{DynReceiver, ReceiveError, Selected, SendError, SendPlan, Wake};

#[test]
fn a_send_is_refused_without_consumers() {
    assert_eq!(plan_send(0, None), SendPlan::Refuse);
    assert_eq!(plan_send(0, Some(0)), SendPlan::Refuse);
    assert_eq!(plan_send(0, Some(9)), SendPlan::Refuse);
}

#[test]
fn a_rendezvous_send_signals_first() {
    assert_eq!(plan_send(1, Some(0)), SendPlan::SignalThenPush);
    assert_eq!(plan_send(7, Some(0)), SendPlan::SignalThenPush);
    assert_eq!(plan_send(1, Some(1)), SendPlan::PushThenSignal);
    assert_eq!(plan_send(1, None), SendPlan::PushThenSignal);
    assert_eq!(plan_send(usize::MAX, Some(usize::MAX)), SendPlan::PushThenSignal);
}

#[test]
fn a_send_concludes_by_the_push() {
    assert_eq!(conclude_send(true), Ok(()));
    assert_eq!(conclude_send(false), Err(SendError::Disconnected));
}

#[test]
fn a_receive_concludes_by_what_was_found() {
    let found = Some(Selected { value: "m", source: 3 });
    assert_eq!(conclude_receive(found, Wake::Token), Ok("m"));
    let found = Some(Selected { value: "m", source: 3 });
    assert_eq!(conclude_receive(found, Wake::Terminal), Ok("m"));
    assert_eq!(
        conclude_receive(None::<Selected<i32>>, Wake::Terminal),
        Err(ReceiveError::AllSendersDropped)
    );
    assert_eq!(
        conclude_receive(None::<Selected<i32>>, Wake::Token),
        Err(ReceiveError::NothingEligible)
    );
}

#[test]
fn errors_describe_themselves() {
    assert_eq!(SendError::Disconnected.message(), "The channel receiver is disconnected");
    assert_eq!(
        ReceiveError::AllSendersDropped.message(),
        "All senders of the bundle were dropped"
    );
    assert_eq!(ReceiveError::NothingEligible.message(), "No channel had an eligible message");
}

#[test]
fn smaller_classes_stand_before_larger_ones() {
    assert_eq!(standing(&1u16, &10u16), Standing::Before);
    assert_eq!(standing(&10u16, &1u16), Standing::After);
    assert_eq!(standing(&4u16, &4u16), Standing::Same);
    assert_eq!(standing(&"a", &"b"), Standing::Before);
}

#[test]
fn bounds_fit_while_the_buffer_can_be_allocated() {
    assert!(check_bounds::<u64>(None));
    assert!(check_bounds::<u64>(Some(0)));
    assert!(check_bounds::<u64>(Some(1)));
    assert!(check_bounds::<u64>(Some(1 << 20)));
    // a slot of a u64 channel is counted as 8 + 8 + 16 bytes
    assert!(check_bounds::<u64>(Some(isize::MAX as usize / 32)));
    assert!(!check_bounds::<u64>(Some(isize::MAX as usize / 32 + 1)));
    assert!(!check_bounds::<u64>(Some(usize::MAX)));
    assert!(check_bounds::<()>(Some(isize::MAX as usize / 17)));
    assert!(!check_bounds::<()>(Some(isize::MAX as usize / 17 + 1)));
}

#[test]
fn eligible_means_unfrozen_and_something_to_take() {
    let (plain, _tx) = DynReceiver::<i32>::open(0, 1, false, None);
    let (bounded, _tx) = DynReceiver::<i32>::open(1, 1, false, Some(2));
    let (rendezvous, _tx) = DynReceiver::<i32>::open(2, 1, false, Some(0));
    let (frozen, _tx) = DynReceiver::<i32>::open(3, 1, true, None);
    let (frozen_rendezvous, _tx) = DynReceiver::<i32>::open(4, 1, true, Some(0));
    assert!(!is_eligible(&plain, 0));
    assert!(is_eligible(&plain, 1));
    assert!(!is_eligible(&bounded, 0));
    assert!(is_eligible(&bounded, 2));
    assert!(is_eligible(&rendezvous, 0));
    assert!(!is_eligible(&frozen, 0));
    assert!(!is_eligible(&frozen, 5));
    assert!(!is_eligible(&frozen_rendezvous, 0));
}

#[test]
fn only_a_rendezvous_send_signals_before_the_push() {
    assert!(signal_before_push(SendPlan::SignalThenPush));
    assert!(!signal_before_push(SendPlan::PushThenSignal));
    assert!(!signal_before_push(SendPlan::Refuse));
}

#[test]
fn a_buffered_send_signals_after_a_push_that_was_taken() {
    assert!(signal_after_push(SendPlan::PushThenSignal, true));
    assert!(!signal_after_push(SendPlan::PushThenSignal, false));
    assert!(!signal_after_push(SendPlan::SignalThenPush, true));
    assert!(!signal_after_push(SendPlan::SignalThenPush, false));
    assert!(!signal_after_push(SendPlan::Refuse, true));
    assert!(!signal_after_push(SendPlan::Refuse, false));
}

#[test]
fn a_send_signals_once_at_most() {
    for plan in [SendPlan::Refuse, SendPlan::SignalThenPush, SendPlan::PushThenSignal] {
        for pushed in [false, true] {
            let signals =
                signal_before_push(plan) as u32 + signal_after_push(plan, pushed) as u32;
            assert!(signals <= 1);
            if pushed && plan != SendPlan::Refuse {
                assert_eq!(signals, 1);
            }
        }
    }
}

#[test]
fn only_a_thaw_of_an_eligible_channel_pulses() {
    assert!(thaw_pulse(Some(true), false, true));
    assert!(!thaw_pulse(Some(true), false, false));
    assert!(!thaw_pulse(Some(true), true, true));
    assert!(!thaw_pulse(Some(false), false, true));
    assert!(!thaw_pulse(Some(false), true, true));
    assert!(!thaw_pulse(None, false, true));
    assert!(!thaw_pulse(None, true, false));
}

#[test]
fn a_waiting_consumer_goes_again_only_when_nothing_was_eligible() {
    assert_eq!(after_pass(Ok::<i32, ReceiveError>(4)), Some(Ok(4)));
    assert_eq!(
        after_pass(Err::<i32, ReceiveError>(ReceiveError::AllSendersDropped)),
        Some(Err(ReceiveError::AllSendersDropped))
    );
    assert_eq!(after_pass(Err::<i32, ReceiveError>(ReceiveError::NothingEligible)), None);
}
