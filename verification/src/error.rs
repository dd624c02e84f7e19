//! What can go wrong in a session.

use crate::channel::{Channel, ChannelView};
use vstd::prelude::*;
use vstd::string::StringExecFns;

verus! {

/// The failure of a call on a session.
#[derive(Debug)]
pub enum Error {
    /// The transport failed or was closed.
    Transport,
    /// An inbound text was no valid message.
    Decode,
    /// An unsubscribe named a channel that the session does not track.
    NotSubscribedToThisChannel(Channel),
    /// No confirmation was read within the window of a wait.
    MissingSubscriptionConfirmation,
}

/// The mathematical value of an [`Error`].
pub enum ErrorView {
    Transport,
    Decode,
    NotSubscribedToThisChannel(ChannelView),
    MissingSubscriptionConfirmation,
}

impl View for Error {
    type V = ErrorView;

    open spec fn view(&self) -> ErrorView {
        match *self {
            Error::Transport => ErrorView::Transport,
            Error::Decode => ErrorView::Decode,
            Error::NotSubscribedToThisChannel(channel) => ErrorView::NotSubscribedToThisChannel(
                channel@,
            ),
            Error::MissingSubscriptionConfirmation => ErrorView::MissingSubscriptionConfirmation,
        }
    }
}

impl ErrorView {
    /// The sentence that describes the failure.
    pub open spec fn message(self) -> Seq<char> {
        match self {
            ErrorView::Transport => "connection failed or closed"@,
            ErrorView::Decode => "malformed message"@,
            ErrorView::NotSubscribedToThisChannel(_) => "not subscribed to this channel"@,
            ErrorView::MissingSubscriptionConfirmation => "missing subscription confirmation"@,
        }
    }
}

impl Error {
    /// The sentence that describes the failure.
    pub fn message(&self) -> (text: String)
        ensures
            text@ == self@.message(),
    {
        match self {
            Error::Transport => String::from_str("connection failed or closed"),
            Error::Decode => String::from_str("malformed message"),
            Error::NotSubscribedToThisChannel(_) => String::from_str(
                "not subscribed to this channel",
            ),
            Error::MissingSubscriptionConfirmation => String::from_str(
                "missing subscription confirmation",
            ),
        }
    }
}

} // verus!
