//! The bundle: the consumer handle that receives, and the producer handles that
//! send into one channel each.
//!
//! The handles share the priority index behind a readers-writer lock, the wake
//! signal, the cleanup set and a count of consumer handles. What a call finds
//! behind those depends on what other threads did, so the contracts of the
//! handles say little. The rules that the handles follow are stated, and
//! proved, on the functions that take what was found as an argument: the index
//! for what a change does to it, the selector for which channel is served, and
//! the rules of sending and receiving for what a call returns.

use crate::cleanup::Cleanup;
use crate::error::{ReceiveError, SendError};
use crate::fifo::push;
use crate::groups::{discarded, has_channel, inserted, locate, purged, refrozen, GroupView};
use crate::index::DynState;
use crate::pending::{
    covers, ids_counted, ids_in_order, pending_total, take_census, total_of, Tally,
};
use crate::priority::{lawful_order, Priority};
use crate::record::{bounds_fit, DynReceiver, RecordView};
use crate::rules::{
    conclude_receive, conclude_send, plan_send, planned, receive_result, send_result,
    signal_after_push, signal_before_push, thaw_pulse, SendPlan,
};
use crate::selector::{is_eligible, select, serves, Selected};
use crate::sync::{count_down, exclusive, read_lock, share, shared, write_lock};
use crate::wake::{WakeSignal, WakeState};
use crossbeam_channel::Sender;
use std::sync::atomic::{AtomicUsize, Ordering};
use std::sync::{Arc, RwLock};
use vstd::prelude::*;

verus! {

/// The index as the lock of a bundle holds it: well formed whenever a thread
/// gets to see it. To change the index a thread takes it out, which leaves an
/// empty index in its place, and puts it back once it is well formed again.
#[verifier::reject_recursive_types(T)]
struct Shared<T, P: Priority> {
    state: DynState<T, P>,
}

impl<T, P: Priority> Shared<T, P> {
    #[verifier::type_invariant]
    spec fn well_formed(self) -> bool {
        self.state.wf()
    }

    /// An empty index.
    fn new() -> (fresh: Self)
        ensures
            fresh.state@ == Seq::<GroupView<T, P>>::empty(),
            fresh.state.next_id() == 0,
    {
        Shared { state: DynState::new() }
    }

    /// The index, to read.
    fn state(&self) -> (state: &DynState<T, P>)
        ensures
            state.wf(),
            *state == self.state,
    {
        proof {
            use_type_invariant(self);
        }
        &self.state
    }

    /// Takes the index out and leaves an empty one in its place.
    fn take(&mut self) -> (state: DynState<T, P>)
        ensures
            state.wf(),
            state == old(self).state,
            final(self).state@ == Seq::<GroupView<T, P>>::empty(),
            final(self).state.next_id() == 0,
    {
        proof {
            use_type_invariant(&*self);
        }
        let mut state = DynState::new();
        core::mem::swap(&mut self.state, &mut state);
        state
    }

    /// Puts `state` in the place of the index.
    fn put(&mut self, state: DynState<T, P>)
        requires
            state.wf(),
        ensures
            final(self).state == state,
    {
        self.state = state;
    }

    /// `DynState::open_channel` on the index.
    fn open_channel(
        &mut self,
        priority: P,
        weight: u32,
        frozen: bool,
        bounds: Option<usize>,
    ) -> (opened: Option<(u32, Sender<T>)>)
        requires
            lawful_order::<P>(),
            weight >= 1,
        ensures
            old(self).state.wf(),
            opened.is_some() <==> old(self).state.next_id() < u32::MAX && bounds_fit::<T>(bounds),
            opened.is_none() ==> final(self).state@ == old(self).state@
                && final(self).state.next_id() == old(self).state.next_id(),
            opened matches Some(channel) ==> {
                &&& channel.0 == old(self).state.next_id()
                &&& final(self).state.next_id() == old(self).state.next_id() + 1
                &&& exists|record: DynReceiver<T>|
                    {
                        &&& record@ == (RecordView {
                            id: channel.0,
                            weight,
                            frozen,
                            capacity: bounds,
                        })
                        &&& final(self).state@ == inserted(old(self).state@, priority, record)
                    }
            },
    {
        let mut state = self.take();
        let opened = state.open_channel(priority, weight, frozen, bounds);
        self.put(state);
        opened
    }

    /// `DynState::discard` on the index.
    fn discard(&mut self, id: u32) -> (was_there: bool)
        ensures
            old(self).state.wf(),
            was_there == has_channel(old(self).state@, id),
            final(self).state@ == discarded(old(self).state@, id),
            final(self).state.next_id() == old(self).state.next_id(),
    {
        let mut state = self.take();
        let was_there = state.discard(id);
        self.put(state);
        was_there
    }

    /// `DynState::purge` on the index.
    fn purge(&mut self, ids: &Vec<u32>)
        ensures
            final(self).state@ == purged(old(self).state@, ids@, ids@.len()),
            final(self).state.next_id() == old(self).state.next_id(),
    {
        let mut state = self.take();
        state.purge(ids);
        self.put(state);
    }

    /// `DynState::refreeze` on the index.
    fn refreeze(&mut self, id: u32, frozen: bool) -> (before: Option<bool>)
        ensures
            old(self).state.wf(),
            before.is_some() == has_channel(old(self).state@, id),
            before matches Some(flag) ==> final(self).state@ == refrozen(
                old(self).state@,
                id,
                frozen,
            ) && flag == old(self).state@[locate(old(self).state@, id).0].receivers[locate(
                old(self).state@,
                id,
            ).1]@.frozen,
            before.is_none() ==> final(self).state@ == old(self).state@,
            final(self).state.next_id() == old(self).state.next_id(),
    {
        let mut state = self.take();
        let before = state.refreeze(id, frozen);
        self.put(state);
        before
    }
}

/// The consumer handle of a bundle. Clones share the bundle; the bundle counts
/// them, and producers are refused once none is left.
#[verifier::reject_recursive_types(T)]
#[verifier::reject_recursive_types(P)]
pub struct DynMultiReceiver<T, P: Priority> {
    consumers: Arc<AtomicUsize>,
    cleanup: Arc<Cleanup>,
    wake: Arc<WakeSignal>,
    state: Arc<RwLock<Shared<T, P>>>,
}

/// The producer handle of one channel of a bundle. Clones send into the same
/// channel; the bundle counts producer handles, and tells its consumers when the
/// last one has gone.
#[verifier::reject_recursive_types(T)]
#[verifier::reject_recursive_types(P)]
pub struct DynSender<T, P: Priority> {
    id: u32,
    capacity: Option<usize>,
    consumers: Arc<AtomicUsize>,
    wake: Arc<WakeSignal>,
    state: Arc<RwLock<Shared<T, P>>>,
    inner: Sender<T>,
}

impl<T, P: Priority> DynMultiReceiver<T, P> {
    /// `self` and `other` are handles on one bundle: they share its index, its
    /// wake signal, its cleanup set and its count of consumers.
    pub closed spec fn same_bundle(&self, other: &Self) -> bool {
        &&& self.consumers == other.consumers
        &&& self.cleanup == other.cleanup
        &&& self.wake == other.wake
        &&& self.state == other.state
    }

    /// A bundle with no channel, and its first consumer handle.
    pub fn new() -> (bundle: Self) {
        DynMultiReceiver {
            consumers: Arc::new(AtomicUsize::new(1)),
            cleanup: Arc::new(Cleanup::new()),
            wake: Arc::new(WakeSignal::new()),
            state: Arc::new(RwLock::new(Shared::new())),
        }
    }

    /// Creates a channel of class `priority` and returns its producer handle.
    ///
    /// Among the eligible channels of one class, a channel is chosen with a
    /// chance in proportion to its `weight`. While `frozen`, the channel takes
    /// messages but is passed over by receive. `bounds` of `None` asks for an
    /// unbounded channel, `Some(n)` for one that holds at most `n` messages, and
    /// `Some(0)` for a rendezvous channel.
    ///
    /// Returns `None`, and creates nothing, when a channel of that capacity
    /// cannot be allocated, or when the bundle has handed out all identifiers.
    pub fn new_channel(
        &self,
        priority: P,
        weight: u32,
        frozen: bool,
        bounds: Option<usize>,
    ) -> (sender: Option<DynSender<T, P>>)
        requires
            lawful_order::<P>(),
            weight >= 1,
        ensures
            !bounds_fit::<T>(bounds) ==> sender.is_none(),
            sender matches Some(handle) ==> handle.spec_capacity() == bounds && handle.belongs_to(
                self,
            ),
            exists|index: DynState<T, P>|
                #![trigger index.wf()]
                {
                    &&& index.wf()
                    &&& sender.is_some() <==> index.next_id() < u32::MAX && bounds_fit::<T>(bounds)
                    &&& sender matches Some(handle) ==> handle.spec_id() == index.next_id()
                },
    {
        let ghost found;
        let opened = {
            let mut guard = write_lock(&*self.state);
            let index = exclusive(&mut guard);
            proof {
                found = index.state;
            }
            index.open_channel(priority, weight, frozen, bounds)
        };
        assert(found.wf());
        match opened {
            None => None,
            Some((id, inner)) => {
                self.wake.producer_joined();
                Some(
                    DynSender {
                        id,
                        capacity: bounds,
                        consumers: share(&self.consumers),
                        wake: share(&self.wake),
                        state: share(&self.state),
                        inner,
                    },
                )
            },
        }
    }

    /// Removes the channel with identifier `id` from the bundle, and says
    /// whether the bundle had it. Messages still queued in the channel are lost,
    /// and its producers are refused from now on. An identifier that the bundle
    /// does not have changes nothing.
    pub fn remove_channel_by_id(&self, id: u32) -> (was_there: bool)
        ensures
            exists|index: DynState<T, P>|
                #![trigger index.wf()]
                index.wf() && was_there == has_channel(index@, id),
    {
        let mut guard = write_lock(&*self.state);
        let index = exclusive(&mut guard);
        let ghost found = index.state;
        let was_there = index.discard(id);
        assert(found.wf());
        was_there
    }

    /// Removes the channel that `sender` sends into, and says whether the
    /// bundle still had it.
    pub fn remove_channel(&self, sender: &DynSender<T, P>) -> (was_there: bool)
        ensures
            exists|index: DynState<T, P>|
                #![trigger index.wf()]
                index.wf() && was_there == has_channel(index@, sender.spec_id()),
    {
        self.remove_channel_by_id(sender.id())
    }

    /// Removes the channels that earlier passes found disconnected.
    fn collect_garbage(&self) {
        let ids = self.cleanup.take();
        if ids.len() > 0 {
            let mut guard = write_lock(&*self.state);
            exclusive(&mut guard).purge(&ids);
        }
    }

    /// Receives one message: parks until the wake signal has a token or all
    /// producers are gone, then makes one selection pass.
    ///
    /// The pass serves the first priority class that has an eligible channel,
    /// and within it draws by weight. It fails with `AllSendersDropped` when all
    /// producers are gone and it found nothing, and with `NothingEligible` when
    /// producers are alive and it found nothing: the token it spent was for a
    /// message that another consumer took or that sits in a frozen channel.
    /// Receive again in that case; the call parks once the tokens are spent.
    pub fn receive(&self) -> (received: Result<T, ReceiveError>)
        ensures
            exists|index: DynState<T, P>, found: Option<Selected<T>>, state: WakeState|
                #![trigger index.wf(), receive_result(found, state.wake())]
                {
                    &&& index.wf()
                    &&& found matches Some(selected) ==> serves(index@, selected.source)
                    &&& !state.parks()
                    &&& received == receive_result(found, state.wake())
                },
    {
        self.collect_garbage();
        let wake = self.wake.wait();
        let guard = read_lock(&*self.state);
        let index = shared(&guard).state();
        let found = select(index, &*self.cleanup);
        let ghost seen = found;
        let received = conclude_receive(found, wake);
        proof {
            let state = choose|state: WakeState| !state.parks() && wake == #[trigger] state.wake();
            assert(index.wf() && received == receive_result(seen, state.wake()));
        }
        received
    }

    /// Whether the bundle has no channel.
    pub fn no_channels(&self) -> (none: bool)
        ensures
            exists|index: DynState<T, P>|
                #![trigger index.wf()]
                index.wf() && none == (index@.len() == 0),
    {
        let guard = read_lock(&*self.state);
        let index = shared(&guard).state();
        let none = index.is_empty();
        assert(index.wf());
        none
    }

    /// How many messages wait in the channels of the bundle, by one census.
    pub fn pending_count(&self) -> (pending: usize)
        ensures
            exists|index: DynState<T, P>, census: Seq<Tally>|
                #![trigger covers(census, index@)]
                {
                    &&& index.wf()
                    &&& covers(census, index@)
                    &&& ids_counted(census) == ids_in_order(index@, index@.len())
                    &&& pending == total_of(census)
                },
    {
        let guard = read_lock(&*self.state);
        let index = shared(&guard).state();
        let census = take_census(index);
        let pending = pending_total(&census);
        assert(covers(census@, index@));
        pending
    }

    /// How many messages wait in the channel with identifier `id`; 0 if the
    /// bundle has no such channel.
    pub fn pending_by_channel(&self, id: u32) -> (pending: usize)
        ensures
            exists|index: DynState<T, P>|
                #![trigger index.wf()]
                index.wf() && (!has_channel(index@, id) ==> pending == 0),
    {
        let guard = read_lock(&*self.state);
        let index = shared(&guard).state();
        let pending = index.pending_of(id);
        assert(index.wf());
        pending
    }
}

impl<T, P: Priority> Clone for DynMultiReceiver<T, P> {
    /// Another consumer handle on the same bundle.
    fn clone(&self) -> (twin: Self)
        ensures
            twin.same_bundle(self),
    {
        self.consumers.fetch_add(1, Ordering::Relaxed);
        DynMultiReceiver {
            consumers: share(&self.consumers),
            cleanup: share(&self.cleanup),
            wake: share(&self.wake),
            state: share(&self.state),
        }
    }
}

impl<T, P: Priority> Drop for DynMultiReceiver<T, P> {
    /// Counts the handle out.
    fn drop(&mut self)
        opens_invariants none
        no_unwind
    {
        count_down(&*self.consumers);
    }
}

impl<T, P: Priority> DynSender<T, P> {
    /// The identifier of the channel.
    pub closed spec fn spec_id(&self) -> u32 {
        self.id
    }

    /// The capacity that the channel was created with.
    pub closed spec fn spec_capacity(&self) -> Option<usize> {
        self.capacity
    }

    /// The handle sends into a channel of `bundle`: it shares the bundle's
    /// index, its wake signal and its count of consumers.
    pub closed spec fn belongs_to(&self, bundle: &DynMultiReceiver<T, P>) -> bool {
        &&& self.consumers == bundle.consumers
        &&& self.wake == bundle.wake
        &&& self.state == bundle.state
    }

    /// `self` and `other` are handles of one bundle.
    pub closed spec fn same_bundle(&self, other: &Self) -> bool {
        &&& self.consumers == other.consumers
        &&& self.wake == other.wake
        &&& self.state == other.state
    }

    /// The identifier of the channel.
    #[verifier::when_used_as_spec(spec_id)]
    pub fn id(&self) -> (id: u32)
        ensures
            id == self.spec_id(),
    {
        self.id
    }

    /// The capacity that the channel was created with.
    #[verifier::when_used_as_spec(spec_capacity)]
    pub fn capacity(&self) -> (capacity: Option<usize>)
        ensures
            capacity == self.spec_capacity(),
    {
        self.capacity
    }

    /// Sends `value` into the channel, and leaves a wake token for a consumer.
    ///
    /// Fails at once when no consumer handle is left, and fails when the channel
    /// was removed from the bundle. On a full bounded channel the call blocks
    /// until there is room; on a rendezvous channel until a consumer takes the
    /// message, which is why the token is left before the push there.
    pub fn send(&self, value: T) -> (sent: Result<(), SendError>)
        ensures
            exists|consumers: usize, pushed: bool|
                sent == #[trigger] send_result(planned(consumers, self.spec_capacity()), pushed),
    {
        let consumers = self.consumers.load(Ordering::Relaxed);
        let plan = plan_send(consumers, self.capacity);
        match plan {
            SendPlan::Refuse => {
                let sent = conclude_send(false);
                assert(sent == send_result(planned(consumers, self.spec_capacity()), false));
                sent
            },
            _ => {
                if signal_before_push(plan) {
                    self.wake.signal();
                }
                let pushed = push(&self.inner, value);
                if signal_after_push(plan, pushed) {
                    self.wake.signal();
                }
                let sent = conclude_send(pushed);
                assert(sent == send_result(planned(consumers, self.spec_capacity()), pushed));
                sent
            },
        }
    }

    /// Freezes or unfreezes the channel, and says whether the bundle still had
    /// it. Unfreezing a frozen channel that is eligible afterwards leaves a wake
    /// token, so that a parked consumer gets to see what queued up while the
    /// channel was frozen. If the channel was removed, nothing happens.
    pub fn set_frozen(&self, frozen: bool) -> (was_there: bool)
        ensures
            exists|index: DynState<T, P>|
                #![trigger index.wf()]
                index.wf() && was_there == has_channel(index@, self.spec_id()),
    {
        let ghost found;
        let (before, pulse) = {
            let mut guard = write_lock(&*self.state);
            let index = exclusive(&mut guard);
            proof {
                found = index.state;
            }
            let before = index.refreeze(self.id, frozen);
            let eligible = match index.state().find(self.id) {
                Some(record) => is_eligible(record, record.pending()),
                None => false,
            };
            (before, thaw_pulse(before, frozen, eligible))
        };
        if pulse {
            self.wake.signal();
        }
        assert(found.wf());
        before.is_some()
    }

    /// Freezes the channel: receive passes it over until it is unfrozen. Says
    /// whether the bundle still had the channel.
    pub fn freeze(&self) -> (was_there: bool)
        ensures
            exists|index: DynState<T, P>|
                #![trigger index.wf()]
                index.wf() && was_there == has_channel(index@, self.spec_id()),
    {
        self.set_frozen(true)
    }

    /// Unfreezes the channel, and says whether the bundle still had it.
    pub fn unfreeze(&self) -> (was_there: bool)
        ensures
            exists|index: DynState<T, P>|
                #![trigger index.wf()]
                index.wf() && was_there == has_channel(index@, self.spec_id()),
    {
        self.set_frozen(false)
    }

    /// How many messages wait in the channel right now.
    pub fn pending_by_channel(&self) -> (pending: usize) {
        self.inner.len()
    }
}

impl<T, P: Priority> Clone for DynSender<T, P> {
    /// Another producer handle on the same channel.
    fn clone(&self) -> (twin: Self)
        ensures
            twin.spec_id() == self.spec_id(),
            twin.spec_capacity() == self.spec_capacity(),
            twin.same_bundle(self),
    {
        self.wake.producer_joined();
        DynSender {
            id: self.id,
            capacity: self.capacity,
            consumers: share(&self.consumers),
            wake: share(&self.wake),
            state: share(&self.state),
            inner: self.inner.clone(),
        }
    }
}

impl<T, P: Priority> Drop for DynSender<T, P> {
    /// Counts the handle out; the last producer handle of a bundle to go lets
    /// its parked consumers leave.
    fn drop(&mut self)
        opens_invariants none
        no_unwind
    {
        self.wake.producer_left();
    }
}

} // verus!
