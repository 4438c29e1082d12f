//! The wake signal: a counter of pending wake tokens that parks a consumer
//! while there is nothing to look at.
//!
//! Every successful send adds one token, and every selection pass spends one.
//! Counting tokens, rather than setting a flag, is what keeps a send that
//! arrives between a consumer's check and its wait from being lost. The last
//! producer to go raises the terminal flag, which lets parked consumers leave.

use crate::sync::{held_mut, lock, notify_all, notify_one};
use std::sync::{Condvar, Mutex, MutexGuard, PoisonError};
use vstd::prelude::*;

verus! {

/// What the wake signal counts.
#[derive(Debug, Clone, Copy, PartialEq, Eq, Structural)]
pub struct WakeState {
    /// Wake tokens that no consumer has spent yet.
    pub tokens: usize,
    /// Producer handles that are alive.
    pub producers: usize,
    /// Raised when the last producer handle went; lowered when one joins.
    pub terminal: bool,
}

/// What a consumer learns when it is let through.
#[derive(Debug, Clone, Copy, PartialEq, Eq, Structural)]
pub enum Wake {
    /// Producers are alive, and this consumer spent a token.
    Token,
    /// Every producer handle is gone.
    Terminal,
}

impl WakeState {
    /// A consumer has to park in this state: no token, and producers may come.
    pub open spec fn parks(&self) -> bool {
        self.tokens == 0 && !self.terminal
    }

    /// The state after one send: one token more. The count stops at the largest
    /// number the machine holds.
    pub open spec fn after_signal(self) -> Self {
        WakeState {
            tokens: if self.tokens < usize::MAX {
                (self.tokens + 1) as usize
            } else {
                usize::MAX
            },
            ..self
        }
    }

    /// The state after a consumer has been let through: a token is spent if
    /// there is one.
    pub open spec fn after_take(self) -> Self {
        WakeState {
            tokens: if self.tokens > 0 {
                (self.tokens - 1) as usize
            } else {
                0
            },
            ..self
        }
    }

    /// What a consumer that is let through learns: whether all producers are
    /// gone.
    pub open spec fn wake(self) -> Wake {
        if self.terminal {
            Wake::Terminal
        } else {
            Wake::Token
        }
    }

    /// The state after a producer handle has come to life: one producer more,
    /// and not terminal. The count stops at the largest number the machine
    /// holds.
    pub open spec fn after_join(self) -> Self {
        WakeState {
            tokens: self.tokens,
            producers: if self.producers < usize::MAX {
                (self.producers + 1) as usize
            } else {
                usize::MAX
            },
            terminal: false,
        }
    }

    /// The state after a producer handle has gone: one producer less, and
    /// terminal exactly when none is left.
    pub open spec fn after_leave(self) -> Self {
        WakeState {
            tokens: self.tokens,
            producers: if self.producers > 0 {
                (self.producers - 1) as usize
            } else {
                0
            },
            terminal: self.producers <= 1,
        }
    }

    /// A producer has been counted in this state at some time: from then on the
    /// state is terminal exactly while no producer is alive.
    pub open spec fn settled(self) -> bool {
        self.terminal == (self.producers == 0)
    }

    /// The state of a fresh bundle: no token, no producer, not terminal.
    pub fn new() -> (state: Self)
        ensures
            state == (WakeState { tokens: 0, producers: 0, terminal: false }),
    {
        WakeState { tokens: 0, producers: 0, terminal: false }
    }

    /// Whether a consumer has to park in this state.
    #[verifier::when_used_as_spec(parks)]
    pub fn must_park(&self) -> (park: bool)
        ensures
            park == self.parks(),
    {
        self.tokens == 0 && !self.terminal
    }

    /// Counts one send.
    pub fn signalled(self) -> (next: Self)
        ensures
            next == self.after_signal(),
        opens_invariants none
        no_unwind
    {
        let tokens: usize = if self.tokens < usize::MAX {
            self.tokens + 1
        } else {
            usize::MAX
        };
        WakeState { tokens, producers: self.producers, terminal: self.terminal }
    }

    /// Lets a consumer through: the state afterwards, and what the consumer
    /// learns.
    pub fn taken(self) -> (out: (Self, Wake))
        requires
            !self.parks(),
        ensures
            out == (self.after_take(), self.wake()),
    {
        let tokens: usize = if self.tokens > 0 {
            self.tokens - 1
        } else {
            0
        };
        let wake = if self.terminal {
            Wake::Terminal
        } else {
            Wake::Token
        };
        (WakeState { tokens, producers: self.producers, terminal: self.terminal }, wake)
    }

    /// Counts a new producer handle.
    pub fn joined(self) -> (next: Self)
        ensures
            next == self.after_join(),
    {
        let producers: usize = if self.producers < usize::MAX {
            self.producers + 1
        } else {
            usize::MAX
        };
        WakeState { tokens: self.tokens, producers, terminal: false }
    }

    /// Counts a producer handle out.
    pub fn left(self) -> (next: Self)
        ensures
            next == self.after_leave(),
        opens_invariants none
        no_unwind
    {
        let producers: usize = if self.producers > 0 {
            self.producers - 1
        } else {
            0
        };
        WakeState { tokens: self.tokens, producers, terminal: producers == 0 }
    }
}

/// A send never leaves a state in which a consumer would park, and the token
/// it adds is the one that a consumer spends: while the count is below its
/// limit, a signal followed by a take gives the state back.
pub proof fn lemma_signal_wakes(state: WakeState)
    ensures
        !state.after_signal().parks(),
        state.tokens < usize::MAX ==> state.after_signal().after_take() == state,
{
}

/// A consumer that is let through while producers are alive has spent exactly
/// one token; with the last token gone, the next consumer parks. So a consumer
/// that finds nothing and comes back cannot spin: it runs once per token.
pub proof fn lemma_take_spends_a_token(state: WakeState)
    requires
        !state.parks(),
        !state.terminal,
    ensures
        state.wake() == Wake::Token,
        state.after_take().tokens == state.tokens - 1,
        state.tokens == 1 ==> state.after_take().parks(),
{
}

/// Once a producer has been counted, the state is terminal exactly while no
/// producer is alive, whatever happens to it.
pub proof fn lemma_terminal_means_no_producer(state: WakeState)
    ensures
        state.after_join().settled(),
        state.after_leave().settled(),
        state.settled() ==> state.after_signal().settled() && state.after_take().settled(),
        state.settled() ==> (state.wake() == Wake::Terminal <==> state.producers == 0),
{
}

/// `Condvar::wait_while`, asking `WakeState::must_park` whether to go on
/// waiting: blocks until the protected state no longer asks a consumer to park,
/// and returns the guard together with a copy of that state. Spurious wake-ups
/// stay inside the call.
#[verifier::external_body]
fn park<'a>(condvar: &Condvar, guard: MutexGuard<'a, WakeState>) -> (woken: (
    MutexGuard<'a, WakeState>,
    WakeState,
))
    ensures
        !woken.1.parks(),
{
    let guard = condvar.wait_while(guard, |state| state.must_park()).unwrap_or_else(
        PoisonError::into_inner,
    );
    let state = *guard;
    (guard, state)
}

/// The wake signal of a bundle, shared by its producers and consumers.
pub struct WakeSignal {
    state: Mutex<WakeState>,
    waiters: Condvar,
}

impl WakeSignal {
    /// A signal with no token and no producer.
    pub fn new() -> (signal: Self) {
        WakeSignal { state: Mutex::new(WakeState::new()), waiters: Condvar::new() }
    }

    /// Adds one token and wakes one parked consumer. Returns the state that it
    /// left behind: whatever state it found, with one signal counted.
    pub fn signal(&self) -> (left: WakeState)
        ensures
            exists|state: WakeState| left == #[trigger] state.after_signal(),
    {
        let left = {
            let mut guard = lock(&self.state);
            let state = *held_mut(&mut guard);
            let left = state.signalled();
            *held_mut(&mut guard) = left;
            left
        };
        notify_one(&self.waiters);
        left
    }

    /// Parks until there is a token or the signal is terminal, spends a token
    /// if there is one, and says whether the signal is terminal: what `wake`
    /// gives for the state that let the consumer through.
    pub fn wait(&self) -> (wake: Wake)
        ensures
            exists|state: WakeState| !state.parks() && wake == #[trigger] state.wake(),
    {
        let guard = lock(&self.state);
        let (mut guard, state) = park(&self.waiters, guard);
        let (next, wake) = state.taken();
        *held_mut(&mut guard) = next;
        wake
    }

    /// Counts a new producer handle. Returns the state that it left behind:
    /// whatever state it found, with one producer more.
    pub fn producer_joined(&self) -> (left: WakeState)
        ensures
            exists|state: WakeState| left == #[trigger] state.after_join(),
    {
        let mut guard = lock(&self.state);
        let state = *held_mut(&mut guard);
        let left = state.joined();
        *held_mut(&mut guard) = left;
        left
    }

    /// Counts a producer handle out; the last one raises the terminal flag and
    /// wakes every parked consumer. Returns the state that it left behind:
    /// whatever state it found, with one producer less.
    pub fn producer_left(&self) -> (left: WakeState)
        ensures
            exists|state: WakeState| left == #[trigger] state.after_leave(),
        opens_invariants none
        no_unwind
    {
        let left = {
            let mut guard = lock(&self.state);
            let state = *held_mut(&mut guard);
            let left = state.left();
            *held_mut(&mut guard) = left;
            left
        };
        if left.terminal {
            notify_all(&self.waiters);
        }
        left
    }
}

} // verus!
