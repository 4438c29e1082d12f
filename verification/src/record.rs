//! The channel record: one FIFO with its identity and selection attributes.

use crate::fifo::{pop, Popped};
use crossbeam_channel::{Receiver, Sender};
use vstd::prelude::*;

verus! {

/// The plain attributes of a channel record.
pub struct RecordView {
    /// The identifier that the bundle gave the channel.
    pub id: u32,
    /// The selection weight, at least 1.
    pub weight: u32,
    /// Whether the channel is hidden from selection.
    pub frozen: bool,
    /// `None` for an unbounded channel, else its capacity; 0 is a rendezvous
    /// channel.
    pub capacity: Option<usize>,
}

/// Whether a channel of this capacity can be allocated: its buffer of slots
/// stays under the largest allocation the machine allows. A slot holds one
/// message next to a 64-bit stamp, so with padding it takes no more than the
/// size of a message, its alignment and 16 bytes. A rendezvous channel has no
/// buffer and always fits.
pub open spec fn channel_fits<T>(capacity: usize) -> bool {
    capacity * (vstd::layout::size_of::<T>() + vstd::layout::align_of::<T>() + 16) <= isize::MAX
}

/// Whether `bounds` describes a channel that can be allocated.
pub open spec fn bounds_fit<T>(bounds: Option<usize>) -> bool {
    bounds matches Some(capacity) ==> channel_fits::<T>(capacity)
}

/// Decides `bounds_fit` at run time.
pub fn check_bounds<T>(bounds: Option<usize>) -> (fits: bool)
    ensures
        fits == bounds_fit::<T>(bounds),
{
    match bounds {
        None => true,
        Some(capacity) => {
            if capacity == 0 {
                return true;
            }
            let size = core::mem::size_of::<T>();
            let align = core::mem::align_of::<T>();
            let limit: usize = isize::MAX as usize;
            if size > limit || align > limit - size || 16 > limit - size - align {
                assert(capacity * (size + align + 16) >= size + align + 16) by (nonlinear_arith)
                    requires
                        capacity >= 1,
                ;
                return false;
            }
            let slot: usize = size + align + 16;
            match capacity.checked_mul(slot) {
                Some(total) => total <= limit,
                None => false,
            }
        },
    }
}

/// One channel of a bundle, seen from the consuming side.
#[verifier::reject_recursive_types(T)]
pub struct DynReceiver<T> {
    id: u32,
    weight: u32,
    frozen: bool,
    capacity: Option<usize>,
    inner: Receiver<T>,
}

impl<T> View for DynReceiver<T> {
    type V = RecordView;

    closed spec fn view(&self) -> RecordView {
        RecordView {
            id: self.id,
            weight: self.weight,
            frozen: self.frozen,
            capacity: self.capacity,
        }
    }
}

impl<T> DynReceiver<T> {
    /// Opens a channel and returns its record together with the sending half.
    /// `bounds` of `None` asks for an unbounded FIFO, `Some(n)` for one that holds
    /// at most `n` messages, and `Some(0)` for a rendezvous channel.
    pub fn open(id: u32, weight: u32, frozen: bool, bounds: Option<usize>) -> (opened: (
        Self,
        Sender<T>,
    ))
        requires
            weight >= 1,
            bounds_fit::<T>(bounds),
        ensures
            opened.0@ == (RecordView { id, weight, frozen, capacity: bounds }),
    {
        let (sender, receiver) = match bounds {
            Some(capacity) => crossbeam_channel::bounded(capacity),
            None => crossbeam_channel::unbounded(),
        };
        (DynReceiver { id, weight, frozen, capacity: bounds, inner: receiver }, sender)
    }

    /// The identifier of the channel.
    pub fn id(&self) -> (id: u32)
        ensures
            id == self@.id,
    {
        self.id
    }

    /// The selection weight of the channel.
    pub fn weight(&self) -> (weight: u32)
        ensures
            weight == self@.weight,
    {
        self.weight
    }

    /// Whether the channel is frozen.
    pub fn is_frozen(&self) -> (frozen: bool)
        ensures
            frozen == self@.frozen,
    {
        self.frozen
    }

    /// The capacity the channel was opened with.
    pub fn capacity(&self) -> (capacity: Option<usize>)
        ensures
            capacity == self@.capacity,
    {
        self.capacity
    }

    /// Freezes or unfreezes the channel. Nothing else about it changes.
    pub fn set_frozen(&mut self, frozen: bool)
        ensures
            *final(self) == old(self).with_frozen(frozen),
    {
        self.frozen = frozen;
    }

    /// The same record with the freeze flag set to `frozen`.
    pub closed spec fn with_frozen(self, frozen: bool) -> Self {
        DynReceiver { frozen, ..self }
    }

    /// How many messages the channel holds right now. Producers and other
    /// consumers change it at any time, so the number is an observation, not a fact
    /// about the record.
    pub fn pending(&self) -> (queued: usize) {
        self.inner.len()
    }

    /// Takes the message at the head of the channel, if there is one, without
    /// blocking.
    pub fn pop(&self) -> (popped: Popped<T>) {
        pop(&self.inner)
    }
}

/// Freezing changes the flag and nothing else.
pub proof fn lemma_with_frozen<T>(record: DynReceiver<T>, frozen: bool)
    ensures
        record.with_frozen(frozen)@ == (RecordView { frozen, ..record@ }),
        record.with_frozen(record@.frozen) == record,
{
}

} // verus!
