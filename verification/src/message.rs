//! Inbound messages and the events that a caller receives.
//!
//! The records that the venue sends (a trade, an orderbook update, a fill) are
//! carried through untouched, so the types here are generic in them: `T` is a
//! trade, `B` an orderbook update and `F` a fill.

use crate::text::same_text;
use vstd::prelude::*;

verus! {

/// The tag of an inbound message.
#[derive(Clone, Copy, Debug, PartialEq, Eq, Structural)]
pub enum Type {
    Subscribed,
    Unsubscribed,
    Update,
    Error,
    Partial,
    Pong,
    Info,
}

impl Type {
    /// The word that stands for the tag in a message.
    pub open spec fn word(self) -> Seq<char> {
        match self {
            Type::Subscribed => "subscribed"@,
            Type::Unsubscribed => "unsubscribed"@,
            Type::Update => "update"@,
            Type::Error => "error"@,
            Type::Partial => "partial"@,
            Type::Pong => "pong"@,
            Type::Info => "info"@,
        }
    }

    /// The word that stands for the tag in a message.
    pub fn tag(&self) -> (word: &'static str)
        ensures
            word@ == self.word(),
    {
        match self {
            Type::Subscribed => "subscribed",
            Type::Unsubscribed => "unsubscribed",
            Type::Update => "update",
            Type::Error => "error",
            Type::Partial => "partial",
            Type::Pong => "pong",
            Type::Info => "info",
        }
    }

    /// Reads a tag from its word. There is a tag exactly where the word is
    /// that of one.
    pub fn from_tag(word: &str) -> (kind: Option<Type>)
        ensures
            match kind {
                Some(kind) => kind.word() == word@,
                None => forall|kind: Type| kind.word() != word@,
            },
    {
        if same_text(word, "subscribed") {
            Some(Type::Subscribed)
        } else if same_text(word, "unsubscribed") {
            Some(Type::Unsubscribed)
        } else if same_text(word, "update") {
            Some(Type::Update)
        } else if same_text(word, "error") {
            Some(Type::Error)
        } else if same_text(word, "partial") {
            Some(Type::Partial)
        } else if same_text(word, "pong") {
            Some(Type::Pong)
        } else if same_text(word, "info") {
            Some(Type::Info)
        } else {
            None
        }
    }
}

/// The payload of an inbound message, in one of its three shapes.
#[derive(Clone, Debug, PartialEq)]
pub enum ResponseData<T, B, F> {
    Trades(Vec<T>),
    OrderbookData(B),
    Fill(F),
}

/// A decoded inbound message.
#[derive(Clone, Debug, PartialEq)]
pub struct Response<T, B, F> {
    pub kind: Type,
    pub data: Option<ResponseData<T, B, F>>,
}

/// An event as the caller receives it.
#[derive(Clone, Debug, PartialEq)]
pub enum Data<T, B, F> {
    Trade(T),
    OrderbookData(B),
    Fill(F),
}

impl<T, B, F> Response<T, B, F> {
    /// The events that the message carries, in the order in which the caller
    /// is to receive them: one per trade of a list of trades, one for an
    /// orderbook update, one for a fill, none where there is no payload.
    pub open spec fn events(self) -> Seq<Data<T, B, F>> {
        match self.data {
            None => Seq::empty(),
            Some(ResponseData::Trades(trades)) => trades@.map_values(|trade: T| Data::Trade(trade)),
            Some(ResponseData::OrderbookData(book)) => seq![Data::OrderbookData(book)],
            Some(ResponseData::Fill(fill)) => seq![Data::Fill(fill)],
        }
    }
}

} // verus!
