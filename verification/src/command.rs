//! Outbound commands.

use crate::channel::{Channel, ChannelView};
use crate::sign::{sign, signature, MAX_HMAC_INPUT};
use crate::text::{decimal, decimal_text};
use vstd::prelude::*;
use vstd::string::StringExecFns;
use vstd::utf8::encode_utf8;

verus! {

/// A command that the client transmits.
#[derive(Debug)]
pub enum Command {
    /// The signed handshake.
    Login { key: String, sign: String, time: u64, subaccount: Option<String> },
    /// The keepalive.
    Ping,
    Subscribe(Channel),
    Unsubscribe(Channel),
}

/// The mathematical value of a [`Command`].
pub enum CommandView {
    Login { key: Seq<char>, sign: Seq<char>, time: u64, subaccount: Option<Seq<char>> },
    Ping,
    Subscribe(ChannelView),
    Unsubscribe(ChannelView),
}

impl View for Command {
    type V = CommandView;

    open spec fn view(&self) -> CommandView {
        match *self {
            Command::Login { key, sign, time, subaccount } => CommandView::Login {
                key: key@,
                sign: sign@,
                time,
                subaccount: match subaccount {
                    Some(name) => Some(name@),
                    None => None,
                },
            },
            Command::Ping => CommandView::Ping,
            Command::Subscribe(channel) => CommandView::Subscribe(channel@),
            Command::Unsubscribe(channel) => CommandView::Unsubscribe(channel@),
        }
    }
}

/// A string as JSON text, quoted and escaped as `serde_json` writes it.
pub uninterp spec fn json_string(text: Seq<char>) -> Seq<char>;

/// Calls the `Display` impl of `serde_json::Value` on a string value.
/// Trusted: the JSON text that comes back is a function of the string alone.
#[verifier::external_body]
fn quote(text: &str) -> (json: String)
    ensures
        json@ == json_string(text@),
{
    serde_json::Value::String(text.to_owned()).to_string()
}

/// A member of a JSON object that holds a string or, where there is none,
/// `null`.
pub open spec fn or_null(json: Option<Seq<char>>) -> Seq<char> {
    match json {
        Some(json) => json,
        None => "null"@,
    }
}

/// The text of a login command. `key`, `sign` and `subaccount` are JSON
/// text already.
pub open spec fn login_frame(
    key: Seq<char>,
    sign: Seq<char>,
    time: u64,
    subaccount: Option<Seq<char>>,
) -> Seq<char> {
    "{\"op\":\"login\",\"args\":{\"key\":"@ + key + ",\"sign\":"@ + sign + ",\"time\":"@
        + decimal(time as nat) + ",\"subaccount\":"@ + or_null(subaccount) + "}}"@
}

/// The text of a keepalive command.
pub open spec fn ping_frame() -> Seq<char> {
    "{\"op\":\"ping\"}"@
}

/// The word that opens a subscribe or an unsubscribe command.
pub open spec fn channel_op(subscribe: bool) -> Seq<char> {
    if subscribe {
        "{\"op\":\"subscribe\",\"channel\":\""@
    } else {
        "{\"op\":\"unsubscribe\",\"channel\":\""@
    }
}

/// The text of a subscribe or an unsubscribe command. `name` is the plain
/// name of the channel; `market` is JSON text already.
pub open spec fn channel_frame(subscribe: bool, name: Seq<char>, market: Seq<char>) -> Seq<char> {
    channel_op(subscribe) + name + "\",\"market\":"@ + market + "}"@
}

/// Writes the text of a login command from members that are JSON text
/// already.
pub fn login_text(key: &str, sign: &str, time: u64, subaccount: Option<&str>) -> (text: String)
    ensures
        text@ == login_frame(
            key@,
            sign@,
            time,
            match subaccount {
                Some(json) => Some(json@),
                None => None,
            },
        ),
{
    let mut text = String::from_str("{\"op\":\"login\",\"args\":{\"key\":");
    text.append(key);
    text.append(",\"sign\":");
    text.append(sign);
    text.append(",\"time\":");
    let time_text = decimal_text(time);
    text.append(time_text.as_str());
    text.append(",\"subaccount\":");
    match subaccount {
        Some(json) => text.append(json),
        None => text.append("null"),
    }
    text.append("}}");
    text
}

/// Writes the text of a keepalive command.
pub fn ping_text() -> (text: String)
    ensures
        text@ == ping_frame(),
{
    String::from_str("{\"op\":\"ping\"}")
}

/// Writes the text of a subscribe or an unsubscribe command from the plain
/// name of the channel and a market that is JSON text already.
pub fn channel_text(subscribe: bool, name: &str, market: &str) -> (text: String)
    ensures
        text@ == channel_frame(subscribe, name@, market@),
{
    let mut text = if subscribe {
        String::from_str("{\"op\":\"subscribe\",\"channel\":\"")
    } else {
        String::from_str("{\"op\":\"unsubscribe\",\"channel\":\"")
    };
    text.append(name);
    text.append("\",\"market\":");
    text.append(market);
    text.append("}");
    text
}

impl CommandView {
    /// The login command for a key, a secret, a subaccount and a time in
    /// milliseconds.
    pub open spec fn login(
        key: Seq<char>,
        secret: Seq<char>,
        subaccount: Option<Seq<char>>,
        time: u64,
    ) -> CommandView {
        CommandView::Login { key, sign: signature(secret, time), time, subaccount }
    }

    /// The text of the command on the wire.
    pub open spec fn text(self) -> Seq<char> {
        match self {
            CommandView::Login { key, sign, time, subaccount } => login_frame(
                json_string(key),
                json_string(sign),
                time,
                match subaccount {
                    Some(name) => Some(json_string(name)),
                    None => None,
                },
            ),
            CommandView::Ping => ping_frame(),
            CommandView::Subscribe(channel) => channel_frame(
                true,
                channel.name(),
                json_string(channel.symbol()),
            ),
            CommandView::Unsubscribe(channel) => channel_frame(
                false,
                channel.name(),
                json_string(channel.symbol()),
            ),
        }
    }

    /// The command that asks the venue to start (`subscribe`) or to stop
    /// sending a channel.
    pub open spec fn for_channel(subscribe: bool, channel: ChannelView) -> CommandView {
        if subscribe {
            CommandView::Subscribe(channel)
        } else {
            CommandView::Unsubscribe(channel)
        }
    }
}

impl Command {
    /// Builds the login command: signs the time under the secret and puts
    /// the tag beside the key, the time and the subaccount.
    pub fn login(
        key: String,
        secret: &str,
        subaccount: Option<String>,
        time: u64,
    ) -> (command: Command)
        requires
            encode_utf8(secret@).len() <= MAX_HMAC_INPUT,
        ensures
            command@ == CommandView::login(
                key@,
                secret@,
                match subaccount {
                    Some(name) => Some(name@),
                    None => None,
                },
                time,
            ),
            command@->sign.len() == 64,
    {
        Command::Login { key, sign: sign(secret, time), time, subaccount }
    }

    /// Writes the command as it goes over the wire.
    pub fn text(&self) -> (text: String)
        ensures
            text@ == self@.text(),
    {
        match self {
            Command::Login { key, sign, time, subaccount } => {
                let key_json = quote(key.as_str());
                let sign_json = quote(sign.as_str());
                match subaccount {
                    Some(name) => {
                        let name_json = quote(name.as_str());
                        login_text(
                            key_json.as_str(),
                            sign_json.as_str(),
                            *time,
                            Some(name_json.as_str()),
                        )
                    },
                    None => login_text(key_json.as_str(), sign_json.as_str(), *time, None),
                }
            },
            Command::Ping => ping_text(),
            Command::Subscribe(channel) => {
                let market = quote(channel.symbol());
                channel_text(true, channel.name(), market.as_str())
            },
            Command::Unsubscribe(channel) => {
                let market = quote(channel.symbol());
                channel_text(false, channel.name(), market.as_str())
            },
        }
    }

    /// The command that asks the venue to start (`subscribe`) or to stop
    /// sending a channel.
    pub fn for_channel(subscribe: bool, channel: Channel) -> (command: Command)
        ensures
            command@ == CommandView::for_channel(subscribe, channel@),
    {
        if subscribe {
            Command::Subscribe(channel)
        } else {
            Command::Unsubscribe(channel)
        }
    }
}

} // verus!
