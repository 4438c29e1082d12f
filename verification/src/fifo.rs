//! The per-channel FIFO: crossbeam's channel, as far as the bundle relies on it.
//!
//! Nothing here is proved. Each item states what crossbeam-channel documents of
//! one of its functions, and the rest of the library is verified against that.

use crossbeam_channel::{Receiver, Sender};
use vstd::prelude::*;

verus! {

/// crossbeam's sending half of a channel. Opaque: it only travels.
#[verifier::external_type_specification]
#[verifier::external_body]
#[verifier::reject_recursive_types(T)]
pub struct ExSender<T>(Sender<T>);

/// crossbeam's receiving half of a channel. Opaque: it only travels.
#[verifier::external_type_specification]
#[verifier::external_body]
#[verifier::reject_recursive_types(T)]
pub struct ExReceiver<T>(Receiver<T>);

/// `crossbeam_channel::bounded`. It panics when the capacity is too large for
/// the channel's buffer of slots. A slot is the message and a 64-bit stamp,
/// padded to the larger alignment of the two, so the bound below keeps the
/// buffer under the largest allocation, and the capacity far from the numbers
/// at which crossbeam's own arithmetic gives up. Capacity 0 allocates nothing.
/// Nothing is claimed of the two halves that come back.
pub assume_specification<T>[ crossbeam_channel::bounded::<T> ](cap: usize) -> (halves: (
    Sender<T>,
    Receiver<T>,
))
    requires
        cap * (vstd::layout::size_of::<T>() + vstd::layout::align_of::<T>() + 16) <= isize::MAX,
;

/// `crossbeam_channel::unbounded`. Nothing is claimed of the two halves.
pub assume_specification<T>[ crossbeam_channel::unbounded::<T> ]() -> (halves: (
    Sender<T>,
    Receiver<T>,
));

/// `Sender::send`: blocks while the channel is full, and fails only when the
/// channel is disconnected; the result says whether the message was taken. That
/// depends on the other half, so nothing is claimed of it.
#[verifier::external_body]
pub(crate) fn push<T>(sender: &Sender<T>, msg: T) -> (pushed: bool) {
    sender.send(msg).is_ok()
}

/// `Sender::clone`: another handle on the same channel.
pub assume_specification<T>[ <Sender<T> as Clone>::clone ](sender: &Sender<T>) -> (twin: Sender<T>);

/// `Sender::len`: how many messages are queued at this instant. Other threads
/// change it, so nothing is claimed of the number.
pub assume_specification<T>[ Sender::<T>::len ](sender: &Sender<T>) -> (queued: usize);

/// `Receiver::len`: how many messages are queued at this instant. Other threads
/// change it, so nothing is claimed of the number.
pub assume_specification<T>[ Receiver::<T>::len ](receiver: &Receiver<T>) -> (queued: usize);

/// What a non-blocking pop found.
pub enum Popped<T> {
    /// The message at the head of the queue.
    Message(T),
    /// Nothing is queued; for a rendezvous channel, no producer is waiting.
    Empty,
    /// Nothing is queued and every sending half is gone.
    Disconnected,
}

/// `Receiver::try_recv`, with crossbeam's error told apart into the library's own
/// variants. The outcome depends on what other threads have sent, so nothing is
/// claimed of it.
#[verifier::external_body]
pub(crate) fn pop<T>(receiver: &Receiver<T>) -> (popped: Popped<T>) {
    match receiver.try_recv() {
        Ok(msg) => Popped::Message(msg),
        Err(crossbeam_channel::TryRecvError::Empty) => Popped::Empty,
        Err(crossbeam_channel::TryRecvError::Disconnected) => Popped::Disconnected,
    }
}

} // verus!
