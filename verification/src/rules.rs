//! The rules of sending and receiving: what a handle does, and returns, for
//! each thing it can find in the bundle.

use crate::error::{ReceiveError, SendError};
use crate::fifo::Popped;
use crate::selector::{verdict_of, Selected, Verdict};
use crate::wake::{Wake, WakeState};
use vstd::prelude::*;

verus! {

/// What a producer does with a message.
#[derive(Debug, Clone, Copy, PartialEq, Eq, Structural)]
pub enum SendPlan {
    /// No consumer is left: the message is refused.
    Refuse,
    /// A rendezvous channel: wake a consumer first, so that it is there to take
    /// the message, then push.
    SignalThenPush,
    /// A channel with a buffer: push, then wake a consumer.
    PushThenSignal,
}

/// The plan of a send into a channel of the given capacity, while `consumers`
/// consumer handles are alive.
pub open spec fn planned(consumers: usize, capacity: Option<usize>) -> SendPlan {
    if consumers == 0 {
        SendPlan::Refuse
    } else if capacity == Some(0usize) {
        SendPlan::SignalThenPush
    } else {
        SendPlan::PushThenSignal
    }
}

/// What a send returns that followed `plan` and whose push, if it made one, was
/// taken or not: it succeeds exactly when it was not refused and the push was
/// taken.
pub open spec fn send_result(plan: SendPlan, pushed: bool) -> Result<(), SendError> {
    if plan == SendPlan::Refuse || !pushed {
        Err(SendError::Disconnected)
    } else {
        Ok(())
    }
}

/// Plans a send into a channel of the given capacity, while `consumers`
/// consumer handles are alive.
pub fn plan_send(consumers: usize, capacity: Option<usize>) -> (plan: SendPlan)
    ensures
        plan == planned(consumers, capacity),
        plan == SendPlan::Refuse <==> consumers == 0,
        plan == SendPlan::SignalThenPush <==> consumers > 0 && capacity == Some(0usize),
        plan == SendPlan::PushThenSignal <==> consumers > 0 && capacity != Some(0usize),
{
    if consumers == 0 {
        SendPlan::Refuse
    } else if capacity == Some(0) {
        SendPlan::SignalThenPush
    } else {
        SendPlan::PushThenSignal
    }
}

/// Whether a send leaves its wake token before the push: only on a rendezvous
/// channel, where the consumer has to be awake to take the message.
pub open spec fn signals_before(plan: SendPlan) -> bool {
    plan == SendPlan::SignalThenPush
}

/// Whether a send leaves its wake token after the push: on a channel with a
/// buffer, and only if the push was taken.
pub open spec fn signals_after(plan: SendPlan, pushed: bool) -> bool {
    plan == SendPlan::PushThenSignal && pushed
}

/// The wake state after a send that followed `plan` and whose push, if it made
/// one, was taken or not.
pub open spec fn after_send(state: WakeState, plan: SendPlan, pushed: bool) -> WakeState {
    if signals_before(plan) || signals_after(plan, pushed) {
        state.after_signal()
    } else {
        state
    }
}

/// Decides whether a send signals before it pushes.
pub fn signal_before_push(plan: SendPlan) -> (signal: bool)
    ensures
        signal == signals_before(plan),
{
    match plan {
        SendPlan::SignalThenPush => true,
        _ => false,
    }
}

/// Decides whether a send signals after its push was taken, or was not.
pub fn signal_after_push(plan: SendPlan, pushed: bool) -> (signal: bool)
    ensures
        signal == signals_after(plan, pushed),
{
    match plan {
        SendPlan::PushThenSignal => pushed,
        _ => false,
    }
}

/// A send never signals twice. One that pushes and succeeds leaves exactly one
/// token. One that fails leaves none, but for the token that a rendezvous send
/// has left before its push.
pub proof fn lemma_one_token_per_send(state: WakeState, plan: SendPlan, pushed: bool)
    ensures
        !(signals_before(plan) && signals_after(plan, pushed)),
        plan != SendPlan::Refuse && pushed ==> after_send(state, plan, pushed)
            == state.after_signal(),
        plan == SendPlan::Refuse ==> after_send(state, plan, pushed) == state,
        plan == SendPlan::PushThenSignal && !pushed ==> after_send(state, plan, pushed) == state,
        plan == SendPlan::SignalThenPush ==> after_send(state, plan, pushed)
            == state.after_signal(),
{
}

/// Whether setting the freeze flag of a channel to `frozen` pulses the wake
/// signal: only when the channel was in the index and frozen (`before`), is
/// unfrozen now, and is eligible after that.
pub open spec fn pulses(before: Option<bool>, frozen: bool, eligible: bool) -> bool {
    before == Some(true) && !frozen && eligible
}

/// Decides whether a change of the freeze flag pulses the wake signal.
pub fn thaw_pulse(before: Option<bool>, frozen: bool, eligible: bool) -> (pulse: bool)
    ensures
        pulse == pulses(before, frozen, eligible),
{
    match before {
        Some(true) => !frozen && eligible,
        _ => false,
    }
}

/// The result of a send whose push was taken, or was not.
pub fn conclude_send(pushed: bool) -> (sent: Result<(), SendError>)
    ensures
        sent == if pushed {
            Ok::<(), SendError>(())
        } else {
            Err::<(), SendError>(SendError::Disconnected)
        },
{
    if pushed {
        Ok(())
    } else {
        Err(SendError::Disconnected)
    }
}

/// The result of a receive whose selection pass found `found`, after the wake
/// signal let it through with `wake`.
///
/// A message is handed on as it was popped. Without one, the receive reports
/// that all senders were dropped if the signal was terminal, and else that
/// nothing was eligible.
pub open spec fn receive_result<T>(found: Option<Selected<T>>, wake: Wake) -> Result<
    T,
    ReceiveError,
> {
    match found {
        Some(selected) => Ok(selected.value),
        None => match wake {
            Wake::Terminal => Err(ReceiveError::AllSendersDropped),
            Wake::Token => Err(ReceiveError::NothingEligible),
        },
    }
}

/// Concludes a receive from what its selection pass found and what the wake
/// signal said.
pub fn conclude_receive<T>(found: Option<Selected<T>>, wake: Wake) -> (received: Result<
    T,
    ReceiveError,
>)
    ensures
        received == receive_result(found, wake),
{
    match found {
        Some(selected) => Ok(selected.value),
        None => match wake {
            Wake::Terminal => Err(ReceiveError::AllSendersDropped),
            Wake::Token => Err(ReceiveError::NothingEligible),
        },
    }
}

/// What a consumer that waits for a message does with the result of one
/// receive: `None` to receive again, which parks it until there is a token, and
/// else the result to return. It goes again exactly when the pass found nothing
/// while producers are alive.
pub open spec fn pass_outcome<T>(received: Result<T, ReceiveError>) -> Option<
    Result<T, ReceiveError>,
> {
    match received {
        Err(ReceiveError::NothingEligible) => None,
        other => Some(other),
    }
}

/// Decides whether a consumer that waits for a message returns `received` or
/// receives again.
pub fn after_pass<T>(received: Result<T, ReceiveError>) -> (outcome: Option<
    Result<T, ReceiveError>,
>)
    ensures
        outcome == pass_outcome(received),
{
    match received {
        Err(ReceiveError::NothingEligible) => None,
        other => Some(other),
    }
}

/// A consumer that waits for a message gets the message that a pass found;
/// fails with `AllSendersDropped` exactly when the pass found nothing and no
/// producer is alive; and receives again exactly when the pass found nothing
/// and producers are alive. This holds from the moment the bundle has had a
/// producer.
pub proof fn lemma_waiting_consumer<T>(state: WakeState, found: Option<Selected<T>>)
    requires
        state.settled(),
    ensures
        found matches Some(selected) ==> pass_outcome(receive_result(found, state.wake()))
            == Some(Ok::<T, ReceiveError>(selected.value)),
        pass_outcome(receive_result(found, state.wake())) == Some(
            Err::<T, ReceiveError>(ReceiveError::AllSendersDropped),
        ) <==> found.is_none() && state.producers == 0,
        pass_outcome(receive_result(found, state.wake())).is_none() <==> found.is_none()
            && state.producers > 0,
{
}

/// A message that a channel gives is what receive returns: nothing between the
/// pop and the caller changes it, whatever the wake signal said.
pub proof fn lemma_message_unchanged<T>(value: T, source: u32, wake: Wake)
    ensures
        verdict_of(Popped::Message(value), source) == Verdict::Deliver(Selected { value, source }),
        receive_result(Some(Selected { value, source }), wake) == Ok::<T, ReceiveError>(value),
{
}

/// Receive fails with `AllSendersDropped` exactly when every producer handle has
/// been dropped and the pass found no message to deliver. This holds from the
/// moment the bundle has had a producer: before the first channel is created
/// nobody has been dropped, and a consumer waits for producers to come.
pub proof fn lemma_all_senders_dropped<T>(state: WakeState, found: Option<Selected<T>>)
    requires
        state.settled(),
    ensures
        receive_result(found, state.wake()) == Err::<T, ReceiveError>(
            ReceiveError::AllSendersDropped,
        ) <==> state.producers == 0 && found.is_none(),
{
}

} // verus!
