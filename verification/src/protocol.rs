//! The session as a mathematical state machine.
//!
//! A [`SessionView`] is what a session knows: the subscriptions it tracks, the
//! events it has buffered for the caller and the call that is in flight, if
//! any. The functions here say how each call and each event changes that
//! state and what the driver is to do next. The executable session in
//! [`crate::session`] is proved to follow them.

use crate::channel::{ChannelView, Status, SubscriptionView};
use crate::command::{Command, CommandView};
use crate::error::{Error, ErrorView};
use crate::message::{Data, Response, Type};
use vstd::prelude::*;

verus! {

/// How many messages a wait for a confirmation reads before it gives up.
pub const CONFIRMATION_WINDOW: usize = 100;

/// How many seconds lie between two keepalive ticks.
pub const PING_INTERVAL_SECS: u64 = 15;

/// What the transport or the clock produced.
#[derive(Debug)]
pub enum Event<T, B, F> {
    /// The keepalive timer fired.
    Tick,
    /// A text frame arrived and was decoded.
    Message(Response<T, B, F>),
    /// A frame arrived that carries no text.
    Other,
    /// A text frame arrived that is no valid message.
    Malformed,
    /// The transport failed or was closed, on sending or on receiving.
    Lost,
}

/// What the driver is to do next.
#[derive(Debug)]
pub enum Action {
    /// Transmit the command, then go on receiving. If the command cannot be
    /// transmitted, report [`Event::Lost`].
    Send(Command),
    /// Go on receiving: nothing is to be transmitted and nothing has ended.
    Receive,
    /// The subscribe or unsubscribe call has succeeded.
    Complete,
    /// The call in flight has failed.
    Fail(Error),
}

/// The mathematical value of an [`Action`].
pub enum ActionView {
    Send(CommandView),
    Receive,
    Complete,
    Fail(ErrorView),
}

impl View for Action {
    type V = ActionView;

    open spec fn view(&self) -> ActionView {
        match *self {
            Action::Send(command) => ActionView::Send(command@),
            Action::Receive => ActionView::Receive,
            Action::Complete => ActionView::Complete,
            Action::Fail(error) => ActionView::Fail(error@),
        }
    }
}

/// A subscribe or unsubscribe call that waits for a confirmation.
#[verifier::ext_equal]
pub struct CallView {
    /// Whether the call subscribes or unsubscribes.
    pub subscribe: bool,
    /// The channels of the call, in the order in which they were given.
    pub targets: Seq<ChannelView>,
    /// The position in `targets` of the channel whose command was
    /// transmitted last and whose confirmation is awaited.
    pub index: nat,
    /// How many messages the present wait has read without finding the
    /// confirmation.
    pub seen: nat,
    /// For a subscribe, the position in the session's list of the record of
    /// `targets[0]`. The record of each later target follows when its turn
    /// comes.
    pub first: nat,
}

/// What a session knows.
#[verifier::ext_equal]
pub struct SessionView<T, B, F> {
    /// The subscriptions that the session tracks, oldest first.
    pub channels: Seq<SubscriptionView>,
    /// The events that wait for the caller, oldest first.
    pub queue: Seq<Data<T, B, F>>,
    /// The call that waits for a confirmation, if there is one.
    pub call: Option<CallView>,
}

/// The events that a run of messages carries, in the order of the messages.
pub open spec fn all_events<T, B, F>(responses: Seq<Response<T, B, F>>) -> Seq<Data<T, B, F>>
    decreases responses.len(),
{
    if responses.len() == 0 {
        Seq::empty()
    } else {
        all_events(responses.drop_last()) + responses.last().events()
    }
}

/// A run of decoded messages as the events that the driver reports.
pub open spec fn messages<T, B, F>(responses: Seq<Response<T, B, F>>) -> Seq<Event<T, B, F>> {
    responses.map_values(|response: Response<T, B, F>| Event::Message(response))
}

/// Whether a message with this tag confirms a pending command.
pub open spec fn confirms(subscribe: bool, kind: Type) -> bool {
    if subscribe {
        kind == Type::Subscribed
    } else {
        kind == Type::Unsubscribed
    }
}

/// The record that a subscribe adds for a channel when its turn comes.
pub open spec fn pending(channel: ChannelView) -> SubscriptionView {
    SubscriptionView { channel, status: Status::Pending }
}

/// The record of a target of a subscribe that has come as far as `index`:
/// confirmed for the targets before `index`, pending for the one at it.
pub open spec fn in_turn(targets: Seq<ChannelView>, index: nat, j: int) -> SubscriptionView {
    SubscriptionView {
        channel: targets[j],
        status: if j < index {
            Status::Confirmed
        } else {
            Status::Pending
        },
    }
}

/// Whether one of `channels` equals `channel`.
pub open spec fn names(channels: Seq<ChannelView>, channel: ChannelView) -> bool {
    exists|i: int| 0 <= i < channels.len() && channels[i] == channel
}

/// Whether the list of subscriptions has a record of `channel`, in whatever
/// status.
pub open spec fn holds(channels: Seq<SubscriptionView>, channel: ChannelView) -> bool {
    exists|i: int| 0 <= i < channels.len() && (#[trigger] channels[i]).channel == channel
}

/// The first of `targets` of which the list of subscriptions has no record.
pub open spec fn first_missing(
    channels: Seq<SubscriptionView>,
    targets: Seq<ChannelView>,
) -> Option<ChannelView>
    decreases targets.len(),
{
    if targets.len() == 0 {
        None
    } else if !holds(channels, targets[0]) {
        Some(targets[0])
    } else {
        first_missing(channels, targets.drop_first())
    }
}

/// The list of subscriptions without every record of a channel in `targets`.
pub open spec fn without(channels: Seq<SubscriptionView>, targets: Seq<ChannelView>) -> Seq<
    SubscriptionView,
> {
    channels.filter(|record: SubscriptionView| !names(targets, record.channel))
}

/// The list of subscriptions with the status of the record at `at` replaced.
pub open spec fn marked(channels: Seq<SubscriptionView>, at: int, status: Status) -> Seq<
    SubscriptionView,
> {
    channels.update(at, SubscriptionView { channel: channels[at].channel, status })
}

impl<T, B, F> SessionView<T, B, F> {
    /// The state of a session that has just been opened.
    pub open spec fn fresh() -> Self {
        SessionView { channels: Seq::empty(), queue: Seq::empty(), call: None }
    }

    /// Whether the state is one that a session can be in. While a subscribe
    /// waits, the list ends with the records of its targets up to the one
    /// whose confirmation is awaited, and holds none of a later target.
    pub open spec fn wf(self) -> bool {
        match self.call {
            None => true,
            Some(call) => {
                &&& call.index < call.targets.len()
                &&& call.seen < CONFIRMATION_WINDOW
                &&& call.subscribe ==> {
                    &&& call.first + call.index + 1 == self.channels.len()
                    &&& forall|j: int|
                        0 <= j <= call.index ==> #[trigger] self.channels[call.first + j]
                            == in_turn(call.targets, call.index, j)
                }
            },
        }
    }

    /// Whether the session tracks the channel, in whatever status.
    pub open spec fn tracks(self, channel: ChannelView) -> bool {
        holds(self.channels, channel)
    }

    /// The first of `targets` that the session does not track.
    pub open spec fn first_untracked(self, targets: Seq<ChannelView>) -> Option<ChannelView> {
        first_missing(self.channels, targets)
    }

    /// The channels of the subscriptions that the session tracks.
    pub open spec fn subscribed(self) -> Seq<ChannelView> {
        self.channels.map_values(|record: SubscriptionView| record.channel)
    }

    /// The start of the exchange for `targets`: the command for the first is
    /// to be transmitted and its confirmation is awaited. With no target
    /// the call has succeeded already. A call that was in flight is
    /// abandoned.
    pub open spec fn begin(self, subscribe: bool, targets: Seq<ChannelView>, first: nat) -> (
        Self,
        ActionView,
    ) {
        if targets.len() == 0 {
            (SessionView { call: None, ..self }, ActionView::Complete)
        } else {
            let call = CallView { subscribe, targets, index: 0, seen: 0, first };
            (
                SessionView { call: Some(call), ..self },
                ActionView::Send(CommandView::for_channel(subscribe, targets[0])),
            )
        }
    }

    /// A call of subscribe: the first target is recorded, as pending, and
    /// the exchange begins. A later target is recorded when its turn comes,
    /// not before.
    pub open spec fn subscribe(self, targets: Seq<ChannelView>) -> (Self, ActionView) {
        let channels = if targets.len() == 0 {
            self.channels
        } else {
            self.channels.push(pending(targets[0]))
        };
        (SessionView { channels, ..self }).begin(true, targets, self.channels.len())
    }

    /// A call of unsubscribe: where a target is not tracked the call fails at
    /// once and changes nothing; otherwise the exchange begins. The records
    /// stay until the last confirmation has come.
    pub open spec fn unsubscribe(self, targets: Seq<ChannelView>) -> (Self, ActionView) {
        match self.first_untracked(targets) {
            Some(channel) => (
                self,
                ActionView::Fail(ErrorView::NotSubscribedToThisChannel(channel)),
            ),
            None => self.begin(false, targets, 0),
        }
    }

    /// A call of unsubscribe for every channel that the session tracks.
    pub open spec fn unsubscribe_all(self) -> (Self, ActionView) {
        self.unsubscribe(self.subscribed())
    }

    /// The confirmation that `call` waits for has arrived. For a subscribe
    /// the record of the channel is marked as confirmed. Where another
    /// target is to go, its turn begins: a subscribe records it, as pending,
    /// and its command is to be transmitted.
    pub open spec fn confirm(self, call: CallView) -> (Self, ActionView) {
        let channels = if call.subscribe {
            marked(self.channels, (call.first + call.index) as int, Status::Confirmed)
        } else {
            self.channels
        };
        if call.index + 1 < call.targets.len() {
            let target = call.targets[call.index + 1int];
            let next = CallView { index: call.index + 1, seen: 0, ..call };
            (
                SessionView {
                    channels: if call.subscribe {
                        channels.push(pending(target))
                    } else {
                        channels
                    },
                    call: Some(next),
                    ..self
                },
                ActionView::Send(CommandView::for_channel(call.subscribe, target)),
            )
        } else if call.subscribe {
            (SessionView { channels, call: None, ..self }, ActionView::Complete)
        } else {
            (
                SessionView { channels: without(channels, call.targets), call: None, ..self },
                ActionView::Complete,
            )
        }
    }

    /// A message other than the confirmation has arrived while `call` waits:
    /// its events are buffered, and the wait fails with the last message of
    /// its window.
    pub open spec fn defer(self, call: CallView, response: Response<T, B, F>) -> (
        Self,
        ActionView,
    ) {
        let queue = self.queue + response.events();
        if call.seen + 1 < CONFIRMATION_WINDOW {
            let next = CallView { seen: call.seen + 1, ..call };
            (SessionView { queue, call: Some(next), ..self }, ActionView::Receive)
        } else {
            let channels = if call.subscribe {
                marked(self.channels, (call.first + call.index) as int, Status::Failed)
            } else {
                self.channels
            };
            (
                SessionView { channels, queue, call: None },
                ActionView::Fail(ErrorView::MissingSubscriptionConfirmation),
            )
        }
    }

    /// A decoded message has arrived.
    pub open spec fn receive(self, response: Response<T, B, F>) -> (Self, ActionView) {
        if response.kind == Type::Pong {
            (self, ActionView::Receive)
        } else {
            match self.call {
                None => (
                    SessionView { queue: self.queue + response.events(), ..self },
                    ActionView::Receive,
                ),
                Some(call) => if confirms(call.subscribe, response.kind) {
                    self.confirm(call)
                } else {
                    self.defer(call, response)
                },
            }
        }
    }

    /// One event: the state after it and what the driver is to do next.
    pub open spec fn step(self, event: Event<T, B, F>) -> (Self, ActionView) {
        match event {
            Event::Tick => (self, ActionView::Send(CommandView::Ping)),
            Event::Message(response) => self.receive(response),
            Event::Other => (self, ActionView::Receive),
            Event::Malformed => (
                SessionView { call: None, ..self },
                ActionView::Fail(ErrorView::Decode),
            ),
            Event::Lost => (
                SessionView { call: None, ..self },
                ActionView::Fail(ErrorView::Transport),
            ),
        }
    }

    /// A run of events, one step each: the state after the last and the
    /// actions in the order in which the steps gave them.
    pub open spec fn run(self, events: Seq<Event<T, B, F>>) -> (Self, Seq<ActionView>)
        decreases events.len(),
    {
        if events.len() == 0 {
            (self, Seq::empty())
        } else {
            let (before, actions) = self.run(events.drop_last());
            let (after, action) = before.step(events.last());
            (after, actions.push(action))
        }
    }

    /// Up to `n` calls of next, which stop where the queue is empty: the
    /// state after them and the events in the order in which they came out.
    pub open spec fn drain(self, n: nat) -> (Self, Seq<Data<T, B, F>>)
        decreases n,
    {
        if n == 0 {
            (self, Seq::empty())
        } else {
            let (before, taken) = self.drain((n - 1) as nat);
            match before.next().1 {
                Some(event) => (before.next().0, taken.push(event)),
                None => (before, taken),
            }
        }
    }

    /// A call of next: the oldest buffered event leaves the queue, if there
    /// is one.
    pub open spec fn next(self) -> (Self, Option<Data<T, B, F>>) {
        if self.queue.len() == 0 {
            (self, None)
        } else {
            (SessionView { queue: self.queue.drop_first(), ..self }, Some(self.queue[0]))
        }
    }
}

/// The first missing target is the one before which every target has a
/// record and which has none itself.
pub proof fn lemma_first_missing_at(
    channels: Seq<SubscriptionView>,
    targets: Seq<ChannelView>,
    at: int,
)
    requires
        0 <= at < targets.len(),
        forall|k: int| 0 <= k < at ==> holds(channels, #[trigger] targets[k]),
        !holds(channels, targets[at]),
    ensures
        first_missing(channels, targets) == Some(targets[at]),
    decreases at,
{
    if at > 0 {
        let rest = targets.drop_first();
        assert forall|k: int| 0 <= k < at - 1 implies holds(channels, #[trigger] rest[k]) by {
            assert(rest[k] == targets[k + 1]);
        }
        lemma_first_missing_at(channels, rest, at - 1);
    }
}

/// No target is missing exactly where every target has a record.
pub proof fn lemma_first_missing_none(channels: Seq<SubscriptionView>, targets: Seq<ChannelView>)
    ensures
        first_missing(channels, targets) is None <==> forall|k: int|
            0 <= k < targets.len() ==> holds(channels, #[trigger] targets[k]),
    decreases targets.len(),
{
    if targets.len() > 0 {
        let rest = targets.drop_first();
        lemma_first_missing_none(channels, rest);
        if holds(channels, targets[0]) {
            if first_missing(channels, rest) is None {
                assert forall|k: int| 0 <= k < targets.len() implies holds(
                    channels,
                    #[trigger] targets[k],
                ) by {
                    if k > 0 {
                        assert(targets[k] == rest[k - 1]);
                    }
                }
            } else {
                let k = choose|k: int| 0 <= k < rest.len() && !holds(channels, #[trigger] rest[k]);
                assert(targets[k + 1] == rest[k]);
            }
        }
    }
}

} // verus!
