//! Subscription targets.

use vstd::prelude::*;
use vstd::std_specs::cmp::PartialEqSpecImpl;

verus! {

/// A subscription target: a market-data stream of one symbol, or the
/// account-wide stream of fills.
#[derive(Debug)]
pub enum Channel {
    Orderbook(String),
    Trades(String),
    Ticker(String),
    Fills,
}

/// The mathematical value of a [`Channel`]: its variant and the characters of
/// its symbol.
pub enum ChannelView {
    Orderbook(Seq<char>),
    Trades(Seq<char>),
    Ticker(Seq<char>),
    Fills,
}

impl View for Channel {
    type V = ChannelView;

    open spec fn view(&self) -> ChannelView {
        match *self {
            Channel::Orderbook(symbol) => ChannelView::Orderbook(symbol@),
            Channel::Trades(symbol) => ChannelView::Trades(symbol@),
            Channel::Ticker(symbol) => ChannelView::Ticker(symbol@),
            Channel::Fills => ChannelView::Fills,
        }
    }
}

impl ChannelView {
    /// The name under which the venue knows the stream.
    pub open spec fn name(self) -> Seq<char> {
        match self {
            ChannelView::Orderbook(_) => "orderbook"@,
            ChannelView::Trades(_) => "trades"@,
            ChannelView::Ticker(_) => "ticker"@,
            ChannelView::Fills => "fills"@,
        }
    }

    /// The symbol the stream is about; empty for the account-wide stream.
    pub open spec fn symbol(self) -> Seq<char> {
        match self {
            ChannelView::Orderbook(symbol) => symbol,
            ChannelView::Trades(symbol) => symbol,
            ChannelView::Ticker(symbol) => symbol,
            ChannelView::Fills => Seq::empty(),
        }
    }
}

impl Clone for Channel {
    fn clone(&self) -> (copy: Channel)
        ensures
            copy@ == self@,
    {
        match self {
            Channel::Orderbook(symbol) => Channel::Orderbook(symbol.clone()),
            Channel::Trades(symbol) => Channel::Trades(symbol.clone()),
            Channel::Ticker(symbol) => Channel::Ticker(symbol.clone()),
            Channel::Fills => Channel::Fills,
        }
    }
}

impl PartialEq for Channel {
    fn eq(&self, other: &Channel) -> (same: bool) {
        match (self, other) {
            (Channel::Orderbook(a), Channel::Orderbook(b)) => *a == *b,
            (Channel::Trades(a), Channel::Trades(b)) => *a == *b,
            (Channel::Ticker(a), Channel::Ticker(b)) => *a == *b,
            (Channel::Fills, Channel::Fills) => true,
            _ => false,
        }
    }
}

impl PartialEqSpecImpl for Channel {
    open spec fn obeys_eq_spec() -> bool {
        true
    }

    open spec fn eq_spec(&self, other: &Channel) -> bool {
        self@ == other@
    }
}

impl Channel {
    /// The name under which the venue knows the stream.
    pub fn name(&self) -> (name: &'static str)
        ensures
            name@ == self@.name(),
    {
        match self {
            Channel::Orderbook(_) => "orderbook",
            Channel::Trades(_) => "trades",
            Channel::Ticker(_) => "ticker",
            Channel::Fills => "fills",
        }
    }

    /// The symbol the stream is about; empty for the account-wide stream.
    pub fn symbol(&self) -> (symbol: &str)
        ensures
            symbol@ == self@.symbol(),
    {
        match self {
            Channel::Orderbook(symbol) => symbol.as_str(),
            Channel::Trades(symbol) => symbol.as_str(),
            Channel::Ticker(symbol) => symbol.as_str(),
            Channel::Fills => {
                proof {
                    reveal_strlit("");
                }
                ""
            },
        }
    }
}

/// How far the venue has acknowledged a recorded subscription.
#[derive(Clone, Copy, Debug, PartialEq, Eq, Structural)]
pub enum Status {
    /// Recorded; no confirmation has been read yet.
    Pending,
    /// The venue confirmed the subscription.
    Confirmed,
    /// The wait for the confirmation ran out.
    Failed,
}

/// One entry of the list of subscriptions that a session keeps.
#[derive(Debug)]
pub struct Subscription {
    pub channel: Channel,
    pub status: Status,
}

/// The mathematical value of a [`Subscription`].
pub struct SubscriptionView {
    pub channel: ChannelView,
    pub status: Status,
}

impl View for Subscription {
    type V = SubscriptionView;

    open spec fn view(&self) -> SubscriptionView {
        SubscriptionView { channel: self.channel@, status: self.status }
    }
}

impl Clone for Subscription {
    fn clone(&self) -> (copy: Subscription)
        ensures
            copy@ == self@,
    {
        Subscription { channel: self.channel.clone(), status: self.status }
    }
}

/// The mathematical values of a list of channels.
pub open spec fn channel_views(list: Seq<Channel>) -> Seq<ChannelView> {
    list.map_values(|channel: Channel| channel@)
}

/// The mathematical values of a list of subscriptions.
pub open spec fn records(list: Seq<Subscription>) -> Seq<SubscriptionView> {
    list.map_values(|record: Subscription| record@)
}

} // verus!
