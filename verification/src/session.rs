//! The executable session.

use crate::channel::{channel_views, records, Channel, Status, Subscription, SubscriptionView};
use crate::command::{Command, CommandView};
use crate::error::Error;
use crate::message::{Data, Response, ResponseData, Type};
use crate::protocol::{
    first_missing, holds, in_turn, lemma_first_missing_at, lemma_first_missing_none, marked,
    names, pending, without, Action, CallView, Event, SessionView, CONFIRMATION_WINDOW,
};
use crate::sign::MAX_HMAC_INPUT;
use std::collections::VecDeque;
use vstd::prelude::*;
use vstd::utf8::encode_utf8;

verus! {

/// A subscribe or unsubscribe call that waits for a confirmation.
struct Call {
    subscribe: bool,
    targets: Vec<Channel>,
    index: usize,
    seen: usize,
    first: usize,
}

impl View for Call {
    type V = CallView;

    closed spec fn view(&self) -> CallView {
        CallView {
            subscribe: self.subscribe,
            targets: channel_views(self.targets@),
            index: self.index as nat,
            seen: self.seen as nat,
            first: self.first as nat,
        }
    }
}

/// The mathematical value of the call in flight, if there is one.
spec fn call_view(call: Option<Call>) -> Option<CallView> {
    match call {
        None => None,
        Some(call) => Some(call@),
    }
}

/// One session with the venue: the subscriptions it tracks, the events that
/// wait for the caller, and the call that waits for a confirmation.
///
/// The session performs no input or output. Each method says in its result
/// what the driver is to transmit or to wait for.
pub struct Ws<T, B, F> {
    channels: Vec<Subscription>,
    buf: VecDeque<Data<T, B, F>>,
    call: Option<Call>,
}

impl<T, B, F> View for Ws<T, B, F> {
    type V = SessionView<T, B, F>;

    closed spec fn view(&self) -> SessionView<T, B, F> {
        SessionView {
            channels: records(self.channels@),
            queue: self.buf@,
            call: call_view(self.call),
        }
    }
}

/// The address of the venue's stream.
pub const ENDPOINT: &'static str = "wss://ftx.com/ws";

/// The address of the venue's stream for the United States.
pub const ENDPOINT_US: &'static str = "wss://ftx.us/ws";

/// What opening a session asks of the driver: connect to `endpoint`,
/// transmit `login` without waiting for an answer, and keep `session`.
pub struct Opening<T, B, F> {
    pub endpoint: &'static str,
    pub login: Command,
    pub session: Ws<T, B, F>,
}

/// Whether one of `list` equals `channel`.
fn names_channel(list: &Vec<Channel>, channel: &Channel) -> (found: bool)
    ensures
        found == names(channel_views(list@), channel@),
{
    let mut i: usize = 0;
    while i < list.len()
        invariant
            i <= list.len(),
            forall|k: int| 0 <= k < i ==> channel_views(list@)[k] != channel@,
        decreases list.len() - i,
    {
        if list[i] == *channel {
            assert(channel_views(list@)[i as int] == channel@);
            return true;
        }
        i += 1;
    }
    false
}

/// Whether the list of subscriptions has a record of `channel`.
fn holds_channel(channels: &Vec<Subscription>, channel: &Channel) -> (found: bool)
    ensures
        found == holds(records(channels@), channel@),
{
    let mut i: usize = 0;
    while i < channels.len()
        invariant
            i <= channels.len(),
            forall|k: int| 0 <= k < i ==> (#[trigger] records(channels@)[k]).channel != channel@,
        decreases channels.len() - i,
    {
        if channels[i].channel == *channel {
            assert(records(channels@)[i as int].channel == channel@);
            return true;
        }
        i += 1;
    }
    false
}

/// The first of `targets` of which the list of subscriptions has no record.
fn first_missing_channel(channels: &Vec<Subscription>, targets: &Vec<Channel>) -> (missing:
    Option<Channel>)
    ensures
        match missing {
            Some(channel) => first_missing(records(channels@), channel_views(targets@)) == Some(
                channel@,
            ),
            None => first_missing(records(channels@), channel_views(targets@)) is None,
        },
{
    let ghost views = channel_views(targets@);
    let mut i: usize = 0;
    while i < targets.len()
        invariant
            i <= targets.len(),
            views == channel_views(targets@),
            forall|k: int| 0 <= k < i ==> holds(records(channels@), #[trigger] views[k]),
        decreases targets.len() - i,
    {
        if !holds_channel(channels, &targets[i]) {
            proof {
                lemma_first_missing_at(records(channels@), views, i as int);
            }
            return Some(targets[i].clone());
        }
        i += 1;
    }
    proof {
        lemma_first_missing_none(records(channels@), views);
    }
    None
}

/// Replaces the status of the record at `at`.
fn mark(channels: &mut Vec<Subscription>, at: usize, status: Status)
    requires
        at < old(channels).len(),
    ensures
        records(final(channels)@) == marked(records(old(channels)@), at as int, status),
{
    let channel = channels[at].channel.clone();
    channels.set(at, Subscription { channel, status });
    assert(records(channels@) =~= marked(records(old(channels)@), at as int, status));
}

/// The list of subscriptions without every record of a channel in `targets`.
fn drop_targets(channels: &Vec<Subscription>, targets: &Vec<Channel>) -> (kept: Vec<Subscription>)
    ensures
        records(kept@) == without(records(channels@), channel_views(targets@)),
{
    let ghost all = records(channels@);
    let ghost gone = channel_views(targets@);
    let mut kept: Vec<Subscription> = Vec::new();
    let mut i: usize = 0;
    proof {
        reveal(Seq::filter);
        assert(all.take(0) =~= Seq::empty());
    }
    while i < channels.len()
        invariant
            i <= channels.len(),
            all == records(channels@),
            gone == channel_views(targets@),
            records(kept@) == without(all.take(i as int), gone),
        decreases channels.len() - i,
    {
        let dropped = names_channel(targets, &channels[i].channel);
        proof {
            reveal(Seq::filter);
            assert(all.take(i + 1).drop_last() =~= all.take(i as int));
            assert(all.take(i + 1).last() == all[i as int]);
        }
        if !dropped {
            kept.push(channels[i].clone());
            assert(records(kept@) =~= without(all.take(i as int), gone).push(all[i as int]));
        }
        i += 1;
    }
    assert(all.take(channels.len() as int) == all);
    kept
}

/// The channels of a list of subscriptions, in its order.
fn channels_of(channels: &Vec<Subscription>) -> (list: Vec<Channel>)
    ensures
        channel_views(list@) == records(channels@).map_values(
            |record: SubscriptionView| record.channel,
        ),
{
    let mut list: Vec<Channel> = Vec::new();
    let mut i: usize = 0;
    while i < channels.len()
        invariant
            i <= channels.len(),
            list.len() == i,
            forall|k: int| 0 <= k < i ==> (#[trigger] list@[k])@ == channels@[k].channel@,
        decreases channels.len() - i,
    {
        list.push(channels[i].channel.clone());
        i += 1;
    }
    assert(channel_views(list@) =~= records(channels@).map_values(
        |record: SubscriptionView| record.channel,
    ));
    list
}

/// Buffers the events that a message carries, behind those that wait already.
fn buffer<T, B, F>(buf: &mut VecDeque<Data<T, B, F>>, response: Response<T, B, F>)
    ensures
        final(buf)@ == old(buf)@ + response.events(),
{
    match response.data {
        None => {},
        Some(ResponseData::Trades(trades)) => {
            let ghost before = buf@;
            let ghost all = trades@;
            for trade in it: trades
                invariant
                    it.seq() == all,
                    buf@ == before + all.take(it.index() as int).map_values(
                        |trade: T| Data::Trade(trade),
                    ),
            {
                buf.push_back(Data::Trade(trade));
            }
            assert(all.take(all.len() as int) == all);
        },
        Some(ResponseData::OrderbookData(book)) => {
            buf.push_back(Data::OrderbookData(book));
        },
        Some(ResponseData::Fill(fill)) => {
            buf.push_back(Data::Fill(fill));
        },
    }
}

impl<T, B, F> Ws<T, B, F> {
    #[verifier::type_invariant]
    spec fn inv(self) -> bool {
        self@.wf()
    }

    /// A session that has just been opened: it tracks nothing, has buffered
    /// nothing and waits for nothing.
    pub fn new() -> (session: Self)
        ensures
            session@ == SessionView::<T, B, F>::fresh(),
            session@.wf(),
    {
        Ws { channels: Vec::new(), buf: VecDeque::new(), call: None }
    }

    /// Opens a session with the venue at `endpoint`.
    fn connect_with_endpoint(
        endpoint: &'static str,
        key: String,
        secret: String,
        subaccount: Option<String>,
        timestamp: u64,
    ) -> (opening: Opening<T, B, F>)
        requires
            encode_utf8(secret@).len() <= MAX_HMAC_INPUT,
        ensures
            opening.endpoint == endpoint,
            opening.login@ == CommandView::login(
                key@,
                secret@,
                match subaccount {
                    Some(name) => Some(name@),
                    None => None,
                },
                timestamp,
            ),
            opening.login@->sign.len() == 64,
            opening.session@ == SessionView::<T, B, F>::fresh(),
            opening.session@.wf(),
    {
        let login = Command::login(key, secret.as_str(), subaccount, timestamp);
        Opening { endpoint, login, session: Ws::new() }
    }

    /// Opens a session: says where to connect and which login command to
    /// transmit for these credentials at this time, in milliseconds since
    /// the epoch, and hands out the fresh session.
    pub fn connect(
        key: String,
        secret: String,
        subaccount: Option<String>,
        timestamp: u64,
    ) -> (opening: Opening<T, B, F>)
        requires
            encode_utf8(secret@).len() <= MAX_HMAC_INPUT,
        ensures
            opening.endpoint@ == ENDPOINT@,
            opening.login@ == CommandView::login(
                key@,
                secret@,
                match subaccount {
                    Some(name) => Some(name@),
                    None => None,
                },
                timestamp,
            ),
            opening.login@->sign.len() == 64,
            opening.session@ == SessionView::<T, B, F>::fresh(),
            opening.session@.wf(),
    {
        Self::connect_with_endpoint(ENDPOINT, key, secret, subaccount, timestamp)
    }

    /// Opens a session as [`Ws::connect`] does, at the venue's address for
    /// the United States.
    pub fn connect_us(
        key: String,
        secret: String,
        subaccount: Option<String>,
        timestamp: u64,
    ) -> (opening: Opening<T, B, F>)
        requires
            encode_utf8(secret@).len() <= MAX_HMAC_INPUT,
        ensures
            opening.endpoint@ == ENDPOINT_US@,
            opening.login@ == CommandView::login(
                key@,
                secret@,
                match subaccount {
                    Some(name) => Some(name@),
                    None => None,
                },
                timestamp,
            ),
            opening.login@->sign.len() == 64,
            opening.session@ == SessionView::<T, B, F>::fresh(),
            opening.session@.wf(),
    {
        Self::connect_with_endpoint(ENDPOINT_US, key, secret, subaccount, timestamp)
    }

    /// The subscriptions that the session tracks, oldest first, each with
    /// its status.
    pub fn subscriptions(&self) -> (list: &Vec<Subscription>)
        ensures
            records(list@) == self@.channels,
    {
        &self.channels
    }

    /// Whether the session tracks the channel, in whatever status.
    pub fn is_subscribed(&self, channel: &Channel) -> (found: bool)
        ensures
            found == self@.tracks(channel@),
    {
        holds_channel(&self.channels, channel)
    }

    /// How many events wait for the caller.
    pub fn buffered(&self) -> (count: usize)
        ensures
            count == self@.queue.len(),
    {
        self.buf.len()
    }

    /// Whether a subscribe or an unsubscribe waits for a confirmation.
    pub fn is_waiting(&self) -> (waiting: bool)
        ensures
            waiting == self@.call is Some,
    {
        self.call.is_some()
    }

    /// Takes the session apart. What stays behind is a fresh session.
    fn open(&mut self) -> (parts: (Vec<Subscription>, VecDeque<Data<T, B, F>>, Option<Call>))
        ensures
            parts.0 == old(self).channels,
            parts.1 == old(self).buf,
            parts.2 == old(self).call,
            old(self)@.wf(),
    {
        proof {
            use_type_invariant(&*self);
        }
        let mut call: Option<Call> = None;
        std::mem::swap(&mut self.call, &mut call);
        let mut channels: Vec<Subscription> = Vec::new();
        std::mem::swap(&mut self.channels, &mut channels);
        let mut buf: VecDeque<Data<T, B, F>> = VecDeque::new();
        std::mem::swap(&mut self.buf, &mut buf);
        (channels, buf, call)
    }

    /// Puts a session together again.
    fn close(
        &mut self,
        channels: Vec<Subscription>,
        buf: VecDeque<Data<T, B, F>>,
        call: Option<Call>,
    )
        requires
            (SessionView { channels: records(channels@), queue: buf@, call: call_view(call) }).wf(),
        ensures
            final(self).channels == channels,
            final(self).buf == buf,
            final(self).call == call,
            final(self)@.wf(),
    {
        *self = Ws { channels, buf, call };
    }

    /// Buffers the events that a message carries, behind those that wait
    /// already.
    pub fn handle_response(&mut self, response: Response<T, B, F>)
        ensures
            final(self)@ == (SessionView {
                queue: old(self)@.queue + response.events(),
                ..old(self)@
            }),
            final(self)@.wf(),
    {
        let (channels, mut buf, call) = self.open();
        buffer(&mut buf, response);
        self.close(channels, buf, call);
    }

    /// Hands out the oldest buffered event, if there is one. Where there is
    /// none the driver is to receive and to report what arrives.
    pub fn next(&mut self) -> (event: Option<Data<T, B, F>>)
        ensures
            final(self)@ == old(self)@.next().0,
            event == old(self)@.next().1,
            final(self)@.wf(),
    {
        let (channels, mut buf, call) = self.open();
        let event = buf.pop_front();
        assert(buf@ == old(self).buf@.drop_first() || event is None);
        self.close(channels, buf, call);
        event
    }

    /// Begins the exchange for `channels` on a session that was taken
    /// apart: hands out the command for the first channel and notes that
    /// its confirmation is awaited.
    fn subscribe_or_unsubscribe(
        &mut self,
        list: Vec<Subscription>,
        buf: VecDeque<Data<T, B, F>>,
        channels: Vec<Channel>,
        subscribe: bool,
        first: usize,
    ) -> (action: Action)
        requires
            subscribe && channels.len() > 0 ==> first + 1 == list.len() && records(list@)[
                first as int
            ] == pending(channel_views(channels@)[0]),
        ensures
            final(self)@ == (SessionView::<T, B, F> {
                channels: records(list@),
                queue: buf@,
                call: None,
            }).begin(subscribe, channel_views(channels@), first as nat).0,
            action@ == (SessionView::<T, B, F> {
                channels: records(list@),
                queue: buf@,
                call: None,
            }).begin(subscribe, channel_views(channels@), first as nat).1,
            final(self)@.wf(),
    {
        if channels.len() == 0 {
            self.close(list, buf, None);
            Action::Complete
        } else {
            let command = Command::for_channel(subscribe, channels[0].clone());
            let call = Call { subscribe, targets: channels, index: 0, seen: 0, first };
            self.close(list, buf, Some(call));
            Action::Send(command)
        }
    }

    /// Begins a subscribe: the first channel is recorded, as pending, and
    /// its command is handed out. The wait for its confirmation goes on in
    /// [`Ws::step`], which records each later channel when its turn comes.
    pub fn subscribe(&mut self, channels: Vec<Channel>) -> (action: Action)
        ensures
            final(self)@ == old(self)@.subscribe(channel_views(channels@)).0,
            action@ == old(self)@.subscribe(channel_views(channels@)).1,
            final(self)@.wf(),
    {
        let (mut list, buf, _) = self.open();
        let first = list.len();
        if channels.len() > 0 {
            list.push(Subscription { channel: channels[0].clone(), status: Status::Pending });
            assert(records(list@) =~= old(self)@.channels.push(
                pending(channel_views(channels@)[0]),
            ));
        }
        self.subscribe_or_unsubscribe(list, buf, channels, true, first)
    }

    /// Begins an unsubscribe. Where the session has no record of one of the
    /// channels the call fails at once and the session stays as it was;
    /// otherwise the command for the first channel is handed out, and the
    /// wait for its confirmation goes on in [`Ws::step`].
    pub fn unsubscribe(&mut self, channels: Vec<Channel>) -> (action: Action)
        ensures
            final(self)@ == old(self)@.unsubscribe(channel_views(channels@)).0,
            action@ == old(self)@.unsubscribe(channel_views(channels@)).1,
            final(self)@.wf(),
    {
        let (list, buf, call) = self.open();
        match first_missing_channel(&list, &channels) {
            Some(channel) => {
                self.close(list, buf, call);
                Action::Fail(Error::NotSubscribedToThisChannel(channel))
            },
            None => self.subscribe_or_unsubscribe(list, buf, channels, false, 0),
        }
    }

    /// Begins an unsubscribe for every channel of which the session has a
    /// record.
    pub fn unsubscribe_all(&mut self) -> (action: Action)
        ensures
            final(self)@ == old(self)@.unsubscribe_all().0,
            action@ == old(self)@.unsubscribe_all().1,
            final(self)@.wf(),
    {
        let snapshot = channels_of(&self.channels);
        self.unsubscribe(snapshot)
    }

    /// Takes one event from the driver and says what the driver is to do
    /// next.
    pub fn step(&mut self, event: Event<T, B, F>) -> (action: Action)
        ensures
            final(self)@ == old(self)@.step(event).0,
            action@ == old(self)@.step(event).1,
            final(self)@.wf(),
    {
        match event {
            Event::Tick => {
                proof {
                    use_type_invariant(&*self);
                }
                Action::Send(Command::Ping)
            },
            Event::Other => {
                proof {
                    use_type_invariant(&*self);
                }
                Action::Receive
            },
            Event::Malformed => {
                let (list, buf, _) = self.open();
                self.close(list, buf, None);
                Action::Fail(Error::Decode)
            },
            Event::Lost => {
                let (list, buf, _) = self.open();
                self.close(list, buf, None);
                Action::Fail(Error::Transport)
            },
            Event::Message(response) => self.receive(response),
        }
    }

    /// Takes one decoded message.
    fn receive(&mut self, response: Response<T, B, F>) -> (action: Action)
        ensures
            final(self)@ == old(self)@.receive(response).0,
            action@ == old(self)@.receive(response).1,
            final(self)@.wf(),
    {
        if response.kind == Type::Pong {
            proof {
                use_type_invariant(&*self);
            }
            return Action::Receive;
        }
        let (mut list, mut buf, call) = self.open();
        match call {
            None => {
                buffer(&mut buf, response);
                self.close(list, buf, None);
                Action::Receive
            },
            Some(call) => {
                let ghost before = records(list@);
                let ghost targets = channel_views(call.targets@);
                assert(old(self)@.call == Some(call@));
                assert(call.index < call.targets.len());
                assert(call.subscribe ==> call.first + call.index + 1 == list.len());
                let confirmed = if call.subscribe {
                    response.kind == Type::Subscribed
                } else {
                    response.kind == Type::Unsubscribed
                };
                if confirmed {
                    if call.subscribe {
                        mark(&mut list, call.first + call.index, Status::Confirmed);
                    }
                    if call.index + 1 < call.targets.len() {
                        if call.subscribe {
                            list.push(
                                Subscription {
                                    channel: call.targets[call.index + 1].clone(),
                                    status: Status::Pending,
                                },
                            );
                        }
                        let command = Command::for_channel(
                            call.subscribe,
                            call.targets[call.index + 1].clone(),
                        );
                        let next = Call {
                            subscribe: call.subscribe,
                            targets: call.targets,
                            index: call.index + 1,
                            seen: 0,
                            first: call.first,
                        };
                        proof {
                            if call.subscribe {
                                let turn = (call.first + call.index) as int;
                                assert(records(list@) =~= marked(
                                    before,
                                    turn,
                                    Status::Confirmed,
                                ).push(pending(targets[call.index + 1])));
                                let next_index = (call.index + 1) as nat;
                                assert forall|j: int| 0 <= j <= next_index implies #[trigger] records(
                                    list@,
                                )[call.first + j] == in_turn(targets, next_index, j) by {
                                    if j <= call.index {
                                        assert(before[call.first + j] == in_turn(
                                            targets,
                                            call.index as nat,
                                            j,
                                        ));
                                    }
                                }
                            }
                        }
                        self.close(list, buf, Some(next));
                        Action::Send(command)
                    } else if call.subscribe {
                        self.close(list, buf, None);
                        Action::Complete
                    } else {
                        let kept = drop_targets(&list, &call.targets);
                        self.close(kept, buf, None);
                        Action::Complete
                    }
                } else {
                    buffer(&mut buf, response);
                    if call.seen + 1 < CONFIRMATION_WINDOW {
                        let next = Call {
                            subscribe: call.subscribe,
                            targets: call.targets,
                            index: call.index,
                            seen: call.seen + 1,
                            first: call.first,
                        };
                        self.close(list, buf, Some(next));
                        Action::Receive
                    } else {
                        if call.subscribe {
                            mark(&mut list, call.first + call.index, Status::Failed);
                        }
                        self.close(list, buf, None);
                        Action::Fail(Error::MissingSubscriptionConfirmation)
                    }
                }
            },
        }
    }
}

} // verus!
