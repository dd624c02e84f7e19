//! What holds of every session, stated over the state machine of
//! [`crate::protocol`] and proved.

use crate::channel::{ChannelView, Status, SubscriptionView};
use crate::command::CommandView;
use crate::error::ErrorView;
use crate::message::{Data, Response, ResponseData, Type};
use crate::protocol::{
    all_events, confirms, holds, in_turn, lemma_first_missing_at, lemma_first_missing_none,
    marked, messages, names, pending, without, ActionView, CallView, Event, SessionView,
    CONFIRMATION_WINDOW,
};
use crate::sign::{hex_lower, signature};
use vstd::prelude::*;

verus! {

/// The tag of a login command is the signature of its time under the secret.
/// It is the same whatever the key and whatever the subaccount.
pub proof fn lemma_login_sign(
    key: Seq<char>,
    other_key: Seq<char>,
    secret: Seq<char>,
    subaccount: Option<Seq<char>>,
    other_subaccount: Option<Seq<char>>,
    time: u64,
)
    ensures
        CommandView::login(key, secret, subaccount, time)->sign == signature(secret, time),
        CommandView::login(other_key, secret, other_subaccount, time)->sign == CommandView::login(
            key,
            secret,
            subaccount,
            time,
        )->sign,
{
}

/// Hex text has two characters for each byte, and each is a digit or a
/// lower-case letter from `a` to `f`.
pub proof fn lemma_hex_shape(data: Seq<u8>)
    ensures
        hex_lower(data).len() == 2 * data.len(),
        forall|i: int|
            0 <= i < hex_lower(data).len() ==> {
                let c = #[trigger] hex_lower(data)[i];
                ('0' <= c <= '9') || ('a' <= c <= 'f')
            },
{
}

/// No two tags share a word, so a word stands for one tag at most.
pub proof fn lemma_words_differ(a: Type, b: Type)
    requires
        a != b,
    ensures
        a.word() != b.word(),
{
    reveal_strlit("subscribed");
    reveal_strlit("unsubscribed");
    reveal_strlit("update");
    reveal_strlit("error");
    reveal_strlit("partial");
    reveal_strlit("pong");
    reveal_strlit("info");
    assert("subscribed"@.len() == 10);
    assert("unsubscribed"@.len() == 12);
    assert("update"@.len() == 6);
    assert("error"@.len() == 5);
    assert("partial"@.len() == 7);
    assert("pong"@.len() == 4);
    assert("info"@.len() == 4);
    assert("pong"@[0] == 'p');
    assert("info"@[0] == 'i');
}

/// A list of trades becomes one event per trade, in the order of the list.
pub proof fn lemma_trades_flatten<T, B, F>(response: Response<T, B, F>, trades: Vec<T>)
    requires
        response.data == Some(ResponseData::<T, B, F>::Trades(trades)),
    ensures
        response.events().len() == trades@.len(),
        forall|i: int|
            0 <= i < trades@.len() ==> #[trigger] response.events()[i] == Data::<T, B, F>::Trade(
                trades@[i],
            ),
{
}

/// An orderbook update and a fill become one event each; a message without
/// payload becomes none.
pub proof fn lemma_single_events<T, B, F>(response: Response<T, B, F>)
    ensures
        response.data matches Some(ResponseData::OrderbookData(book)) ==> response.events()
            == seq![Data::<T, B, F>::OrderbookData(book)],
        response.data matches Some(ResponseData::Fill(fill)) ==> response.events()
            == seq![Data::<T, B, F>::Fill(fill)],
        response.data is None ==> response.events().len() == 0,
{
}

/// Calls of next hand the buffered events out oldest first: `n` of them,
/// where that many wait, are the first `n` of the queue, and the rest stays
/// in its order.
pub proof fn lemma_drain<T, B, F>(s: SessionView<T, B, F>, n: nat)
    requires
        n <= s.queue.len(),
    ensures
        s.drain(n).1 == s.queue.take(n as int),
        s.drain(n).0 == (SessionView { queue: s.queue.skip(n as int), ..s }),
    decreases n,
{
    if n > 0 {
        lemma_drain(s, (n - 1) as nat);
        let before = s.drain((n - 1) as nat).0;
        assert(before.queue[0] == s.queue[n - 1]);
        assert(before.queue.drop_first() =~= s.queue.skip(n as int));
        assert(s.queue.take(n - 1).push(s.queue[n - 1]) =~= s.queue.take(n as int));
    } else {
        assert(s.queue.skip(0) =~= s.queue);
        assert(s.queue.take(0) =~= Seq::empty());
    }
}

/// Once the queue is empty, next hands out nothing and changes nothing.
pub proof fn lemma_next_empty<T, B, F>(s: SessionView<T, B, F>)
    requires
        s.queue.len() == 0,
    ensures
        s.next() == (s, None::<Data<T, B, F>>),
{
}

/// A pong is dropped: it changes nothing in the session, buffers no event,
/// does not count in a wait for a confirmation, and the driver goes on
/// receiving.
pub proof fn lemma_pong_suppressed<T, B, F>(s: SessionView<T, B, F>, response: Response<T, B, F>)
    requires
        response.kind == Type::Pong,
    ensures
        s.step(Event::Message(response)) == (s, ActionView::Receive),
{
}

/// A tick of the keepalive timer has exactly one ping transmitted and
/// changes nothing in the session.
pub proof fn lemma_tick_pings<T, B, F>(s: SessionView<T, B, F>)
    ensures
        s.step(Event::Tick) == (s, ActionView::Send(CommandView::Ping)),
{
}

/// While nothing but ticks comes in, the session stays as it is and each
/// tick has one ping transmitted: as many pings as ticks, and nothing else.
pub proof fn lemma_ticks_only<T, B, F>(s: SessionView<T, B, F>, n: nat)
    ensures
        s.run(Seq::new(n, |i: int| Event::<T, B, F>::Tick)) == (
            s,
            Seq::new(n, |i: int| ActionView::Send(CommandView::Ping)),
        ),
    decreases n,
{
    let ticks = Seq::new(n, |i: int| Event::<T, B, F>::Tick);
    let pings = Seq::new(n, |i: int| ActionView::Send(CommandView::Ping));
    if n == 0 {
        assert(pings =~= Seq::empty());
    } else {
        let fewer = (n - 1) as nat;
        lemma_ticks_only(s, fewer);
        assert(ticks.drop_last() =~= Seq::new(fewer, |i: int| Event::<T, B, F>::Tick));
        assert(Seq::new(fewer, |i: int| ActionView::Send(CommandView::Ping)).push(
            ActionView::Send(CommandView::Ping),
        ) =~= pings);
    }
}

/// A frame without text changes nothing and has nothing transmitted.
pub proof fn lemma_other_ignored<T, B, F>(s: SessionView<T, B, F>)
    ensures
        s.step(Event::Other) == (s, ActionView::Receive),
{
}

/// An unsubscribe that names a channel of which the session has no record
/// fails with that channel, the first such in the list, has nothing
/// transmitted and changes nothing.
pub proof fn lemma_unsubscribe_guard<T, B, F>(
    s: SessionView<T, B, F>,
    targets: Seq<ChannelView>,
    at: int,
)
    requires
        0 <= at < targets.len(),
        !s.tracks(targets[at]),
        forall|k: int| 0 <= k < at ==> s.tracks(#[trigger] targets[k]),
    ensures
        s.unsubscribe(targets) == (
            s,
            ActionView::Fail(ErrorView::NotSubscribedToThisChannel(targets[at])),
        ),
{
    lemma_first_missing_at(s.channels, targets, at);
}

/// An unsubscribe fails at once exactly where one of its channels has no
/// record; otherwise it fails not at all at its start.
pub proof fn lemma_unsubscribe_starts<T, B, F>(s: SessionView<T, B, F>, targets: Seq<ChannelView>)
    ensures
        s.unsubscribe(targets).1 is Fail <==> exists|k: int|
            0 <= k < targets.len() && !s.tracks(#[trigger] targets[k]),
        s.unsubscribe(targets).1 is Fail ==> s.unsubscribe(targets).0 == s,
{
    lemma_first_missing_none(s.channels, targets);
}

/// Whether no message of the run is a pong.
pub open spec fn no_pong<T, B, F>(responses: Seq<Response<T, B, F>>) -> bool {
    forall|i: int| 0 <= i < responses.len() ==> (#[trigger] responses[i]).kind != Type::Pong
}

/// Whether no message of the run confirms a pending command.
pub open spec fn no_confirmation<T, B, F>(
    subscribe: bool,
    responses: Seq<Response<T, B, F>>,
) -> bool {
    forall|i: int|
        0 <= i < responses.len() ==> !confirms(subscribe, (#[trigger] responses[i]).kind)
}

/// `n` times the action to go on receiving.
pub open spec fn receiving(n: nat) -> Seq<ActionView> {
    Seq::new(n, |i: int| ActionView::Receive)
}

/// While no call waits for a confirmation, the events of every message go to
/// the back of the queue, message after message, and nothing else changes.
pub proof fn lemma_listening_buffers<T, B, F>(
    s: SessionView<T, B, F>,
    responses: Seq<Response<T, B, F>>,
)
    requires
        s.call is None,
        no_pong(responses),
    ensures
        s.run(messages(responses)) == (
            SessionView { queue: s.queue + all_events(responses), ..s },
            receiving(responses.len()),
        ),
    decreases responses.len(),
{
    if responses.len() == 0 {
        assert(s.queue + all_events(responses) =~= s.queue);
        assert(receiving(0) =~= Seq::empty());
    } else {
        let front = responses.drop_last();
        assert(messages(responses).drop_last() =~= messages(front));
        assert(messages(responses).last() == Event::Message(responses.last()));
        lemma_listening_buffers(s, front);
        assert(s.queue + all_events(front) + responses.last().events() =~= s.queue + all_events(
            responses,
        ));
        assert(receiving(front.len()).push(ActionView::Receive) =~= receiving(responses.len()));
    }
}

/// While a call waits and its window lasts, the events of every message
/// that is not the confirmation go to the back of the queue, the wait counts
/// the message, and the driver goes on receiving.
pub proof fn lemma_wait_buffers<T, B, F>(
    s: SessionView<T, B, F>,
    call: CallView,
    responses: Seq<Response<T, B, F>>,
)
    requires
        s.call == Some(call),
        no_pong(responses),
        no_confirmation(call.subscribe, responses),
        call.seen + responses.len() < CONFIRMATION_WINDOW,
    ensures
        s.run(messages(responses)) == (
            SessionView {
                queue: s.queue + all_events(responses),
                call: Some(CallView { seen: call.seen + responses.len(), ..call }),
                ..s
            },
            receiving(responses.len()),
        ),
    decreases responses.len(),
{
    if responses.len() == 0 {
        assert(s.queue + all_events(responses) =~= s.queue);
        assert(receiving(0) =~= Seq::empty());
        assert(CallView { seen: call.seen + responses.len(), ..call } == call);
    } else {
        let front = responses.drop_last();
        assert(messages(responses).drop_last() =~= messages(front));
        assert(messages(responses).last() == Event::Message(responses.last()));
        assert(no_pong(front));
        assert(no_confirmation(call.subscribe, front));
        lemma_wait_buffers(s, call, front);
        assert(s.queue + all_events(front) + responses.last().events() =~= s.queue + all_events(
            responses,
        ));
        assert(receiving(front.len()).push(ActionView::Receive) =~= receiving(responses.len()));
    }
}

/// A wait whose window runs out fails: when as many messages have been read
/// as the window holds and none was the confirmation, the call ends with the
/// error of the missing confirmation. Every message before the last had the
/// driver go on receiving, the events of all of them are buffered, and the
/// record of a channel that was being subscribed stays, marked as failed.
pub proof fn lemma_window_runs_out<T, B, F>(
    s: SessionView<T, B, F>,
    call: CallView,
    responses: Seq<Response<T, B, F>>,
)
    requires
        s.call == Some(call),
        no_pong(responses),
        no_confirmation(call.subscribe, responses),
        responses.len() > 0,
        call.seen + responses.len() == CONFIRMATION_WINDOW,
    ensures
        s.run(messages(responses)) == (
            SessionView {
                channels: if call.subscribe {
                    marked(s.channels, (call.first + call.index) as int, Status::Failed)
                } else {
                    s.channels
                },
                queue: s.queue + all_events(responses),
                call: None,
            },
            receiving((responses.len() - 1) as nat).push(
                ActionView::Fail(ErrorView::MissingSubscriptionConfirmation),
            ),
        ),
{
    let front = responses.drop_last();
    assert(messages(responses).drop_last() =~= messages(front));
    assert(messages(responses).last() == Event::Message(responses.last()));
    assert(no_pong(front));
    assert(no_confirmation(call.subscribe, front));
    lemma_wait_buffers(s, call, front);
    assert(s.queue + all_events(front) + responses.last().events() =~= s.queue + all_events(
        responses,
    ));
}

/// A subscribe to one channel succeeds when the confirmation comes within
/// the window, whatever comes before it: the channel is recorded and marked
/// as confirmed, and the events of the messages that came first wait in the
/// queue, in the order of their arrival, behind those that waited already.
pub proof fn lemma_subscribe_confirmed<T, B, F>(
    s: SessionView<T, B, F>,
    channel: ChannelView,
    responses: Seq<Response<T, B, F>>,
    confirmation: Response<T, B, F>,
)
    requires
        no_pong(responses),
        no_confirmation(true, responses),
        responses.len() < CONFIRMATION_WINDOW,
        confirmation.kind == Type::Subscribed,
    ensures
        s.subscribe(seq![channel]).1 == ActionView::Send(CommandView::Subscribe(channel)),
        ({
            let begun = s.subscribe(seq![channel]).0;
            let waited = begun.run(messages(responses));
            let ended = waited.0.step(Event::Message(confirmation));
            &&& waited.1 == receiving(responses.len())
            &&& ended.1 == ActionView::Complete
            &&& ended.0 == SessionView {
                channels: s.channels.push(
                    SubscriptionView { channel, status: Status::Confirmed },
                ),
                queue: s.queue + all_events(responses),
                call: None,
            }
        }),
{
    let begun = s.subscribe(seq![channel]).0;
    let call = begun.call->0;
    lemma_wait_buffers(begun, call, responses);
    let waited = begun.run(messages(responses));
    let ended = waited.0.step(Event::Message(confirmation));
    assert(begun.channels =~= s.channels.push(
        SubscriptionView { channel, status: Status::Pending },
    ));
    assert(ended.0.channels =~= s.channels.push(
        SubscriptionView { channel, status: Status::Confirmed },
    ));
}

/// An update with a list of `n` trades, read while no call waits, gives
/// exactly `n` events to next, after those that waited already and in the
/// order of the list.
pub proof fn lemma_batch_flattening<T, B, F>(
    s: SessionView<T, B, F>,
    response: Response<T, B, F>,
    trades: Vec<T>,
)
    requires
        s.call is None,
        response.kind != Type::Pong,
        response.data == Some(ResponseData::<T, B, F>::Trades(trades)),
    ensures
        ({
            let after = s.step(Event::Message(response)).0;
            let count = s.queue.len() + trades@.len();
            &&& after.queue.len() == count
            &&& after.drain(count).1 == s.queue + trades@.map_values(
                |trade: T| Data::<T, B, F>::Trade(trade),
            )
            &&& after.drain(count).0.queue.len() == 0
        }),
{
    let after = s.step(Event::Message(response)).0;
    let count = s.queue.len() + trades@.len();
    lemma_drain(after, count);
    assert(after.queue.take(count as int) =~= after.queue);
}

/// Events come out in the order in which they came in, across messages:
/// after a run of messages, read while no call waits, next hands out what
/// waited before, then the events of the first message, then those of the
/// second, and so on to the last.
pub proof fn lemma_fifo<T, B, F>(s: SessionView<T, B, F>, responses: Seq<Response<T, B, F>>)
    requires
        s.call is None,
        no_pong(responses),
    ensures
        ({
            let after = s.run(messages(responses)).0;
            &&& after.queue == s.queue + all_events(responses)
            &&& after.drain(after.queue.len()).1 == s.queue + all_events(responses)
            &&& after.drain(after.queue.len()).0.queue.len() == 0
        }),
{
    lemma_listening_buffers(s, responses);
    let after = s.run(messages(responses)).0;
    lemma_drain(after, after.queue.len());
    assert(after.queue.take(after.queue.len() as int) =~= after.queue);
}

/// Every call and every event leaves a session in a state that a session
/// can be in.
pub proof fn lemma_wf_preserved<T, B, F>(
    s: SessionView<T, B, F>,
    targets: Seq<ChannelView>,
    event: Event<T, B, F>,
)
    requires
        s.wf(),
    ensures
        SessionView::<T, B, F>::fresh().wf(),
        s.subscribe(targets).0.wf(),
        s.unsubscribe(targets).0.wf(),
        s.unsubscribe_all().0.wf(),
        s.step(event).0.wf(),
        s.next().0.wf(),
{
    lemma_first_missing_none(s.channels, targets);
    lemma_first_missing_none(s.channels, s.subscribed());
}

/// What an unsubscribe removes once it is confirmed: every record of one of
/// its channels, and no other.
pub proof fn lemma_without(
    channels: Seq<SubscriptionView>,
    targets: Seq<ChannelView>,
    record: SubscriptionView,
)
    ensures
        without(channels, targets).contains(record) <==> channels.contains(record) && !names(
            targets,
            record.channel,
        ),
{
    let kept = |record: SubscriptionView| !names(targets, record.channel);
    if without(channels, targets).contains(record) {
        channels.lemma_filter_contains_rev(kept, record);
        let k = choose|k: int|
            0 <= k < without(channels, targets).len() && without(channels, targets)[k] == record;
        channels.lemma_filter_pred(kept, k);
    }
    if channels.contains(record) && kept(record) {
        let k = choose|k: int| 0 <= k < channels.len() && channels[k] == record;
        channels.lemma_filter_contains(kept, k);
    }
}

/// An unsubscribe from everything does not fail at its start, and the list
/// without the records of its channels, which is what its last confirmation
/// leaves, is empty.
pub proof fn lemma_unsubscribe_all_clears<T, B, F>(s: SessionView<T, B, F>)
    ensures
        s.unsubscribe_all().1 !is Fail,
        without(s.channels, s.subscribed()).len() == 0,
{
    let targets = s.subscribed();
    assert forall|k: int| 0 <= k < targets.len() implies holds(
        s.channels,
        #[trigger] targets[k],
    ) by {
        assert(s.channels[k].channel == targets[k]);
    }
    lemma_first_missing_none(s.channels, targets);
    let kept = |record: SubscriptionView| !names(targets, record.channel);
    assert forall|k: int| 0 <= k < s.channels.len() implies !kept(#[trigger] s.channels[k]) by {
        assert(targets[k] == s.channels[k].channel);
    }
    assert(s.channels.all(|record: SubscriptionView| !kept(record)));
    s.channels.lemma_all_neg_filter_empty(kept);
}

/// A subscribe records its first channel only, as pending, at the end of the
/// list; a subscribe to nothing records nothing. A later channel that the
/// session did not track before is not tracked at the start either.
pub proof fn lemma_subscribe_records_first<T, B, F>(
    s: SessionView<T, B, F>,
    targets: Seq<ChannelView>,
    later: int,
)
    requires
        0 < later < targets.len(),
        !s.tracks(targets[later]),
        targets[later] != targets[0],
    ensures
        s.subscribe(targets).0.channels == s.channels.push(pending(targets[0])),
        s.subscribe(Seq::empty()).0.channels == s.channels,
        !s.subscribe(targets).0.tracks(targets[later]),
{
    let after = s.subscribe(targets).0.channels;
    assert forall|i: int| 0 <= i < after.len() implies (#[trigger] after[i]).channel
        != targets[later] by {
        if i < s.channels.len() {
            assert(after[i] == s.channels[i]);
        }
    }
}

/// Unless an unsubscribe is in flight, an event removes no record, moves
/// none and changes no channel. It adds a record in one case only: a
/// subscribe gets the confirmation that it waits for and has another channel
/// to go; the record is that of this channel, pending, at the end of the
/// list.
pub proof fn lemma_records_added<T, B, F>(s: SessionView<T, B, F>, event: Event<T, B, F>)
    requires
        s.wf(),
        !(s.call matches Some(call) && !call.subscribe),
    ensures
        ({
            let after = s.step(event).0.channels;
            &&& s.channels.len() <= after.len() <= s.channels.len() + 1
            &&& forall|i: int|
                0 <= i < s.channels.len() ==> (#[trigger] after[i]).channel
                    == s.channels[i].channel
            &&& after.len() == s.channels.len() + 1 ==> {
                &&& event matches Event::Message(response)
                &&& response.kind == Type::Subscribed
                &&& s.call matches Some(call)
                &&& call.index + 1 < call.targets.len()
                &&& after.last() == pending(call.targets[call.index + 1int])
            }
        }),
{
}

/// Unless an unsubscribe is in flight, an event changes the status of a
/// record in one way only: a subscribe waits for the confirmation of that
/// very record and a message arrives that is no pong. The record is then
/// confirmed if the message has the tag of the confirmation, and failed if
/// the message was the last of the window.
pub proof fn lemma_status_changes<T, B, F>(
    s: SessionView<T, B, F>,
    event: Event<T, B, F>,
    at: int,
)
    requires
        s.wf(),
        0 <= at < s.channels.len(),
        !(s.call matches Some(call) && !call.subscribe),
    ensures
        s.step(event).0.channels[at].status != s.channels[at].status ==> {
            &&& event matches Event::Message(response)
            &&& response.kind != Type::Pong
            &&& s.call matches Some(call)
            &&& call.first + call.index == at
            &&& if response.kind == Type::Subscribed {
                s.step(event).0.channels[at].status == Status::Confirmed
            } else {
                &&& s.step(event).0.channels[at].status == Status::Failed
                &&& call.seen + 1 == CONFIRMATION_WINDOW
            }
        },
{
}

/// When the window of a subscribe runs out in the wait for one of its
/// channels, the session has gained the records of the channels up to that
/// one and no other: those before it confirmed, its own failed. What the
/// list held before the subscribe is as it was, and no later channel has a
/// record.
pub proof fn lemma_timeout_records<T, B, F>(
    s: SessionView<T, B, F>,
    call: CallView,
    response: Response<T, B, F>,
)
    requires
        s.wf(),
        s.call == Some(call),
        call.subscribe,
        call.seen + 1 == CONFIRMATION_WINDOW,
        response.kind != Type::Pong,
        response.kind != Type::Subscribed,
    ensures
        ({
            let (after, action) = s.step(Event::Message(response));
            &&& action == ActionView::Fail(ErrorView::MissingSubscriptionConfirmation)
            &&& after.call is None
            &&& after.channels.len() == call.first + call.index + 1
            &&& after.channels.take(call.first as int) == s.channels.take(call.first as int)
            &&& forall|j: int|
                0 <= j < call.index ==> #[trigger] after.channels[call.first + j]
                    == SubscriptionView { channel: call.targets[j], status: Status::Confirmed }
            &&& after.channels[(call.first + call.index) as int] == SubscriptionView {
                channel: call.targets[call.index as int],
                status: Status::Failed,
            }
        }),
{
    let after = s.step(Event::Message(response)).0;
    assert(after.channels.take(call.first as int) =~= s.channels.take(call.first as int));
    assert forall|j: int| 0 <= j < call.index implies #[trigger] after.channels[call.first + j]
        == SubscriptionView { channel: call.targets[j], status: Status::Confirmed } by {
        assert(s.channels[call.first + j] == in_turn(call.targets, call.index, j));
    }
    assert(s.channels[(call.first + call.index) as int] == in_turn(
        call.targets,
        call.index,
        call.index as int,
    ));
}

/// A subscribe to several channels whose first wait runs out has recorded
/// the first channel only: the session tracks what it tracked before and
/// that channel, marked as failed. The call fails with the error of the
/// missing confirmation, and the only command handed out is the subscribe
/// for the first channel.
pub proof fn lemma_subscribe_times_out<T, B, F>(
    s: SessionView<T, B, F>,
    targets: Seq<ChannelView>,
    responses: Seq<Response<T, B, F>>,
)
    requires
        targets.len() > 0,
        no_pong(responses),
        no_confirmation(true, responses),
        responses.len() == CONFIRMATION_WINDOW,
    ensures
        s.subscribe(targets).1 == ActionView::Send(CommandView::Subscribe(targets[0])),
        s.subscribe(targets).0.run(messages(responses)) == (
            SessionView {
                channels: s.channels.push(
                    SubscriptionView { channel: targets[0], status: Status::Failed },
                ),
                queue: s.queue + all_events(responses),
                call: None,
            },
            receiving((responses.len() - 1) as nat).push(
                ActionView::Fail(ErrorView::MissingSubscriptionConfirmation),
            ),
        ),
{
    let begun = s.subscribe(targets).0;
    let call = begun.call->0;
    lemma_window_runs_out(begun, call, responses);
    assert(marked(begun.channels, (call.first + call.index) as int, Status::Failed)
        =~= s.channels.push(SubscriptionView { channel: targets[0], status: Status::Failed }));
}

/// While an unsubscribe is in flight, an event changes no record; the one
/// that brings the last confirmation removes the records of the channels of
/// the call, and only those.
pub proof fn lemma_unsubscribe_removes<T, B, F>(
    s: SessionView<T, B, F>,
    event: Event<T, B, F>,
    record: SubscriptionView,
)
    requires
        s.wf(),
        s.call matches Some(call) && !call.subscribe,
    ensures
        s.step(event).1 is Complete ==> (s.step(event).0.channels.contains(record)
            <==> s.channels.contains(record) && !names(s.call->0.targets, record.channel)),
        s.step(event).1 !is Complete ==> s.step(event).0.channels == s.channels,
{
    lemma_without(s.channels, s.call->0.targets, record);
}

} // verus!
