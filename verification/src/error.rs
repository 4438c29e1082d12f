//! The errors that the two halves of a bundle report.

use vstd::prelude::*;

verus! {

/// Why a message could not be handed to a channel.
#[derive(Debug, Clone, Copy, PartialEq, Eq, Structural)]
pub enum SendError {
    /// No consumer handle is left, or the channel was removed from the bundle.
    Disconnected,
}

/// Why a receive came back without a message.
#[derive(Debug, Clone, Copy, PartialEq, Eq, Structural)]
pub enum ReceiveError {
    /// Every producer handle is gone and the pass found nothing to deliver.
    AllSendersDropped,
    /// A wake token was spent, but no channel yielded a message: the message was
    /// taken by another consumer, or sits in a frozen channel. Receive again.
    NothingEligible,
}

impl SendError {
    /// The text that describes the error.
    pub fn message(&self) -> (text: String)
        ensures
            text@ == "The channel receiver is disconnected"@,
    {
        "The channel receiver is disconnected".to_owned()
    }
}

impl ReceiveError {
    /// The text that describes the error.
    pub fn message(&self) -> (text: String)
        ensures
            *self == ReceiveError::AllSendersDropped ==> text@
                == "All senders of the bundle were dropped"@,
            *self == ReceiveError::NothingEligible ==> text@
                == "No channel had an eligible message"@,
    {
        match self {
            ReceiveError::AllSendersDropped => "All senders of the bundle were dropped".to_owned(),
            ReceiveError::NothingEligible => "No channel had an eligible message".to_owned(),
        }
    }
}

} // verus!
