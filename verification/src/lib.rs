//! Session core of a streaming market-data client.
//!
//! The crate holds everything the client decides: the signed login command,
//! the wire text of every outbound command, the subscribe / unsubscribe
//! confirmation protocol, the keepalive reaction and the queue that turns
//! batched updates into single events. It performs no input or output. A
//! driver owns the connection and the clock, feeds what they produce to
//! [`Ws::step`] and transmits what the session asks for.

pub mod channel;
pub mod command;
pub mod error;
pub mod laws;
pub mod message;
pub mod protocol;
pub mod session;
pub mod sign;
pub mod text;

pub use channel::{Channel, ChannelView, Status, Subscription, SubscriptionView};
pub use command::{Command, CommandView};
pub use error::{Error, ErrorView};
pub use message::{Data, Response, ResponseData, Type};
pub use protocol::{
    Action, ActionView, CallView, Event, SessionView, CONFIRMATION_WINDOW, PING_INTERVAL_SECS,
};
pub use session::{Opening, Ws, ENDPOINT, ENDPOINT_US};
