//! A priority-weighted multiplexer over many FIFO channels.
//!
//! A bundle groups channels by priority class. Receiving serves the first class
//! (in the order of the priority type) that has an eligible channel, and picks
//! among the eligible channels of that class at random, in proportion to their
//! weights. A channel can be frozen, which hides it from selection without
//! touching what it has queued.
//!
//! ```
//! use multichannel::DynMultiReceiver;
//!
//! let bundle = DynMultiReceiver::<&str, u8>::new();
//! let urgent = bundle.new_channel(0, 1, false, Some(1)).unwrap();
//! let bulk = bundle.new_channel(1, 10, false, None).unwrap();
//! bulk.send("later").unwrap();
//! urgent.send("now").unwrap();
//! assert_eq!(bundle.receive(), Ok("now"));
//! assert_eq!(bundle.receive(), Ok("later"));
//! ```
//!
//! The parts, leaves first:
//!
//! - [`record`]: one channel with its identifier, weight, freeze flag and
//!   capacity;
//! - [`groups`] and [`index`]: the records grouped by priority class, as plain
//!   values and as the data structure that keeps them;
//! - [`wake`]: the counter of wake tokens that parks a consumer;
//! - [`selector`]: which channel a receive serves;
//! - [`rules`]: what sending and receiving return;
//! - [`bundle`]: the handles that tie these together behind locks.
//!
//! [`fifo`], [`lookup`], [`sync`] and [`candidates`] hold what the library
//! takes on trust from crossbeam-channel, ahash, the standard library, smallvec
//! and rand.

pub mod bundle;
pub mod candidates;
pub mod cleanup;
pub mod error;
pub mod fifo;
pub mod groups;
pub mod index;
pub mod lookup;
pub mod pending;
pub mod priority;
pub mod record;
pub mod rules;
pub mod selector;
pub mod sync;
pub mod wake;

pub use bundle::{DynMultiReceiver, DynSender};
pub use candidates::{Candidate, Candidates};
pub use cleanup::Cleanup;
pub use error::{ReceiveError, SendError};
pub use fifo::Popped;
pub use index::{DynState, PriorityGroup};
pub use pending::Tally;
pub use priority::Priority;
pub use record::DynReceiver;
pub use rules::SendPlan;
pub use selector::{Selected, Verdict};
pub use wake::{Wake, WakeSignal, WakeState};
