use ftx_ws::command::{channel_text, login_text, ping_text};
use ftx_ws::sign::{can_sign, hex_text, sign, sign_payload_text, MAX_HMAC_INPUT};
use ftx_ws::text::{decimal_text, same_text};
use ftx_ws::{Channel, Command, Error, Opening, Type, Ws, ENDPOINT, ENDPOINT_US};

type Session = Ws<u64, String, i64>;

fn member<'a>(value: &'a serde_json::Value, name: &str) -> &'a serde_json::Value {
    value.get(name).expect("the member is there")
}

fn parsed(text: &str) -> serde_json::Value {
    serde_json::from_str(text).expect("the command is JSON")
}

#[test]
fn same_text_compares_characters() {
    assert!(same_text("", ""));
    assert!(same_text("pong", "pong"));
    assert!(same_text("é∑", "é∑"));
    assert!(!same_text("pong", "ping"));
    assert!(!same_text("pong", "pongs"));
    assert!(!same_text("pong", ""));
    assert!(!same_text("Pong", "pong"));
}

#[test]
fn every_tag_has_its_word() {
    assert_eq!(Type::Subscribed.tag(), "subscribed");
    assert_eq!(Type::Unsubscribed.tag(), "unsubscribed");
    assert_eq!(Type::Update.tag(), "update");
    assert_eq!(Type::Error.tag(), "error");
    assert_eq!(Type::Partial.tag(), "partial");
    assert_eq!(Type::Pong.tag(), "pong");
    assert_eq!(Type::Info.tag(), "info");
}

#[test]
fn a_tag_is_read_from_its_word() {
    let all = [
        Type::Subscribed,
        Type::Unsubscribed,
        Type::Update,
        Type::Error,
        Type::Partial,
        Type::Pong,
        Type::Info,
    ];
    for kind in all {
        assert_eq!(Type::from_tag(kind.tag()), Some(kind));
    }
}

#[test]
fn an_unknown_word_is_no_tag() {
    assert_eq!(Type::from_tag(""), None);
    assert_eq!(Type::from_tag("ping"), None);
    assert_eq!(Type::from_tag("Pong"), None);
    assert_eq!(Type::from_tag("subscribe"), None);
    assert_eq!(Type::from_tag("updated"), None);
}

#[test]
fn decimal_of_zero_is_one_digit() {
    assert_eq!(decimal_text(0), "0");
}

#[test]
fn decimal_of_single_digits() {
    assert_eq!(decimal_text(7), "7");
    assert_eq!(decimal_text(9), "9");
}

#[test]
fn decimal_carries_no_leading_zero() {
    assert_eq!(decimal_text(10), "10");
    assert_eq!(decimal_text(100), "100");
    assert_eq!(decimal_text(907), "907");
}

#[test]
fn decimal_of_the_largest_number() {
    assert_eq!(decimal_text(u64::MAX), "18446744073709551615");
}

#[test]
fn decimal_agrees_with_the_standard_formatting() {
    let mut n: u64 = 1;
    for _ in 0..64 {
        assert_eq!(decimal_text(n), format!("{}", n));
        assert_eq!(decimal_text(n - 1), format!("{}", n - 1));
        n = n.wrapping_mul(2).max(1);
    }
}

#[test]
fn hex_writes_two_lower_case_digits_per_byte() {
    assert_eq!(hex_text(&[]), "");
    assert_eq!(hex_text(&[0x00]), "00");
    assert_eq!(hex_text(&[0x0f, 0xf0]), "0ff0");
    assert_eq!(hex_text(&[1, 2, 3, 15, 16]), "0102030f10");
    assert_eq!(hex_text(&[0xab, 0xcd, 0xef, 0x19]), "abcdef19");
}

#[test]
fn hex_of_every_byte() {
    let digits = "0123456789abcdef".as_bytes();
    for byte in 0..=255u8 {
        let text = hex_text(&[byte]);
        let expected = [digits[(byte / 16) as usize], digits[(byte % 16) as usize]];
        assert_eq!(text.as_bytes(), &expected);
    }
}

#[test]
fn sign_payload_is_the_time_and_the_fixed_word() {
    assert_eq!(sign_payload_text(1557246346499), "1557246346499websocket_login");
    assert_eq!(sign_payload_text(0), "0websocket_login");
}

#[test]
fn sign_matches_the_documented_example() {
    assert_eq!(
        sign("Y2QTHI23f23f23jfjas23f23To0RfUwX3H42fvN-", 1557246346499),
        "d10b5a67a1a941ae9463a60b285ae845cdeac1b11edc7da9977bef0228b96de9"
    );
}

#[test]
fn sign_known_answers() {
    assert_eq!(
        sign("secret", 1557246346499),
        "b94cff7e4e8d45118550921d8a77393e5b87e26a72052a35da6972f79be26047"
    );
    assert_eq!(
        sign("", 0),
        "9082e6913da2350099a8feb44b8faae12548263801a4556b7be6ca247d0b6a47"
    );
    let long_secret = "k".repeat(100);
    assert_eq!(
        sign(&long_secret, u64::MAX),
        "78f4ccbe539684c621d8b7a867de65984cd129632893fdcad1466eaacf99a593"
    );
    assert_eq!(
        sign("sécrèt", 42),
        "377909357e5d06e67f67b269b4da8cf2a334640643546c487d6824562271b5e1"
    );
}

#[test]
fn sign_is_the_keyed_hash_in_hex() {
    let secret = "T4lPid48QtjNxjLUFOcUZghD7CUJ7sTVsfuvQZF2";
    let time: u64 = 1600000000123;
    let tag = hmac_sha256::HMAC::mac(format!("{}websocket_login", time).as_bytes(), secret.as_bytes());
    assert_eq!(sign(secret, time), hex::encode(tag));
    assert_eq!(sign(secret, time).len(), 64);
}

#[test]
fn sign_is_64_characters_of_lower_case_hex() {
    for (secret, time) in [("", 0), ("secret", 1557246346499), ("sécrèt", u64::MAX)] {
        let tag = sign(secret, time);
        assert_eq!(tag.len(), 64);
        assert!(tag.chars().all(|c| c.is_ascii_digit() || ('a'..='f').contains(&c)));
    }
}

#[test]
fn sign_depends_on_secret_and_time() {
    assert_ne!(sign("a", 1), sign("b", 1));
    assert_ne!(sign("a", 1), sign("a", 2));
}

#[test]
fn a_short_secret_can_be_signed_under() {
    assert!(can_sign(""));
    assert!(can_sign("secret"));
    assert!(can_sign(&"s".repeat(100_000)));
    assert_eq!(MAX_HMAC_INPUT, usize::MAX / 8 - 64);
}

#[test]
fn login_tag_does_not_depend_on_key_or_subaccount() {
    let one = Command::login("key-one".to_string(), "secret", None, 1557246346499);
    let two = Command::login(
        "another key".to_string(),
        "secret",
        Some("desk".to_string()),
        1557246346499,
    );
    match (one, two) {
        (Command::Login { sign: first, .. }, Command::Login { sign: second, .. }) => {
            assert_eq!(first, second);
            assert_eq!(
                first,
                "b94cff7e4e8d45118550921d8a77393e5b87e26a72052a35da6972f79be26047"
            );
        }
        _ => panic!("a login command was expected"),
    }
}

#[test]
fn login_command_holds_what_it_was_given() {
    let command = Command::login("the key".to_string(), "secret", Some("desk".to_string()), 77);
    match command {
        Command::Login { key, sign: tag, time, subaccount } => {
            assert_eq!(key, "the key");
            assert_eq!(tag, sign("secret", 77));
            assert_eq!(time, 77);
            assert_eq!(subaccount, Some("desk".to_string()));
        }
        _ => panic!("a login command was expected"),
    }
}

#[test]
fn login_text_without_subaccount() {
    let command = Command::login("the-key".to_string(), "secret", None, 1557246346499);
    assert_eq!(
        command.text(),
        "{\"op\":\"login\",\"args\":{\"key\":\"the-key\",\"sign\":\"b94cff7e4e8d45118550921d8a77393e5b87e26a72052a35da6972f79be26047\",\"time\":1557246346499,\"subaccount\":null}}"
    );
}

#[test]
fn login_text_with_subaccount() {
    let command = Command::Login {
        key: "k".to_string(),
        sign: "00ff".to_string(),
        time: 0,
        subaccount: Some("desk 1".to_string()),
    };
    assert_eq!(
        command.text(),
        "{\"op\":\"login\",\"args\":{\"key\":\"k\",\"sign\":\"00ff\",\"time\":0,\"subaccount\":\"desk 1\"}}"
    );
}

#[test]
fn login_text_is_json_with_the_given_members() {
    let command = Command::login(
        "a \"quoted\" key\\".to_string(),
        "secret",
        Some("line\nbreak\u{1}é".to_string()),
        u64::MAX,
    );
    let value = parsed(&command.text());
    assert_eq!(member(&value, "op").as_str(), Some("login"));
    let args = member(&value, "args");
    assert_eq!(member(args, "key").as_str(), Some("a \"quoted\" key\\"));
    assert_eq!(member(args, "sign").as_str(), Some(sign("secret", u64::MAX).as_str()));
    assert_eq!(member(args, "time").as_u64(), Some(u64::MAX));
    assert_eq!(member(args, "subaccount").as_str(), Some("line\nbreak\u{1}é"));
    assert_eq!(args.as_object().map(|members| members.len()), Some(4));
    assert_eq!(value.as_object().map(|members| members.len()), Some(2));
}

#[test]
fn login_text_has_null_for_no_subaccount() {
    let command = Command::login("k".to_string(), "s", None, 1);
    let value = parsed(&command.text());
    assert!(member(member(&value, "args"), "subaccount").is_null());
}

#[test]
fn login_frame_from_quoted_members() {
    assert_eq!(
        login_text("\"k\"", "\"ab\"", 15, Some("\"s\"")),
        "{\"op\":\"login\",\"args\":{\"key\":\"k\",\"sign\":\"ab\",\"time\":15,\"subaccount\":\"s\"}}"
    );
    assert_eq!(
        login_text("\"k\"", "\"ab\"", 15, None),
        "{\"op\":\"login\",\"args\":{\"key\":\"k\",\"sign\":\"ab\",\"time\":15,\"subaccount\":null}}"
    );
}

#[test]
fn ping_text_is_fixed() {
    assert_eq!(ping_text(), "{\"op\":\"ping\"}");
    assert_eq!(Command::Ping.text(), "{\"op\":\"ping\"}");
}

#[test]
fn channel_frame_from_quoted_market() {
    assert_eq!(
        channel_text(true, "trades", "\"BTC-PERP\""),
        "{\"op\":\"subscribe\",\"channel\":\"trades\",\"market\":\"BTC-PERP\"}"
    );
    assert_eq!(
        channel_text(false, "fills", "\"\""),
        "{\"op\":\"unsubscribe\",\"channel\":\"fills\",\"market\":\"\"}"
    );
}

#[test]
fn subscribe_text_of_each_channel() {
    assert_eq!(
        Command::Subscribe(Channel::Orderbook("BTC/USD".to_string())).text(),
        "{\"op\":\"subscribe\",\"channel\":\"orderbook\",\"market\":\"BTC/USD\"}"
    );
    assert_eq!(
        Command::Subscribe(Channel::Trades("BTC-PERP".to_string())).text(),
        "{\"op\":\"subscribe\",\"channel\":\"trades\",\"market\":\"BTC-PERP\"}"
    );
    assert_eq!(
        Command::Subscribe(Channel::Ticker("ETH-PERP".to_string())).text(),
        "{\"op\":\"subscribe\",\"channel\":\"ticker\",\"market\":\"ETH-PERP\"}"
    );
    assert_eq!(
        Command::Subscribe(Channel::Fills).text(),
        "{\"op\":\"subscribe\",\"channel\":\"fills\",\"market\":\"\"}"
    );
}

#[test]
fn unsubscribe_text_of_each_channel() {
    assert_eq!(
        Command::Unsubscribe(Channel::Orderbook("BTC/USD".to_string())).text(),
        "{\"op\":\"unsubscribe\",\"channel\":\"orderbook\",\"market\":\"BTC/USD\"}"
    );
    assert_eq!(
        Command::Unsubscribe(Channel::Trades("BTC-PERP".to_string())).text(),
        "{\"op\":\"unsubscribe\",\"channel\":\"trades\",\"market\":\"BTC-PERP\"}"
    );
    assert_eq!(
        Command::Unsubscribe(Channel::Ticker("ETH-PERP".to_string())).text(),
        "{\"op\":\"unsubscribe\",\"channel\":\"ticker\",\"market\":\"ETH-PERP\"}"
    );
    assert_eq!(
        Command::Unsubscribe(Channel::Fills).text(),
        "{\"op\":\"unsubscribe\",\"channel\":\"fills\",\"market\":\"\"}"
    );
}

#[test]
fn a_symbol_is_escaped_in_the_text() {
    let symbol = "we\"ird\\sym\tbol";
    let text = Command::Subscribe(Channel::Trades(symbol.to_string())).text();
    assert_eq!(
        text,
        "{\"op\":\"subscribe\",\"channel\":\"trades\",\"market\":\"we\\\"ird\\\\sym\\tbol\"}"
    );
    let value = parsed(&text);
    assert_eq!(member(&value, "op").as_str(), Some("subscribe"));
    assert_eq!(member(&value, "channel").as_str(), Some("trades"));
    assert_eq!(member(&value, "market").as_str(), Some(symbol));
}

#[test]
fn for_channel_picks_the_command() {
    match Command::for_channel(true, Channel::Fills) {
        Command::Subscribe(Channel::Fills) => {}
        other => panic!("unexpected command {:?}", other),
    }
    match Command::for_channel(false, Channel::Ticker("X".to_string())) {
        Command::Unsubscribe(Channel::Ticker(symbol)) => assert_eq!(symbol, "X"),
        other => panic!("unexpected command {:?}", other),
    }
}

#[test]
fn channel_names_and_symbols() {
    assert_eq!(Channel::Orderbook("A".to_string()).name(), "orderbook");
    assert_eq!(Channel::Trades("A".to_string()).name(), "trades");
    assert_eq!(Channel::Ticker("A".to_string()).name(), "ticker");
    assert_eq!(Channel::Fills.name(), "fills");
    assert_eq!(Channel::Orderbook("A".to_string()).symbol(), "A");
    assert_eq!(Channel::Trades("B".to_string()).symbol(), "B");
    assert_eq!(Channel::Ticker("C".to_string()).symbol(), "C");
    assert_eq!(Channel::Fills.symbol(), "");
}

#[test]
fn channels_are_equal_by_variant_and_symbol() {
    assert_eq!(Channel::Trades("A".to_string()), Channel::Trades("A".to_string()));
    assert_ne!(Channel::Trades("A".to_string()), Channel::Trades("B".to_string()));
    assert_ne!(Channel::Trades("A".to_string()), Channel::Ticker("A".to_string()));
    assert_ne!(Channel::Orderbook("A".to_string()), Channel::Ticker("A".to_string()));
    assert_eq!(Channel::Fills, Channel::Fills);
    assert_ne!(Channel::Fills, Channel::Trades("".to_string()));
    assert_eq!(Channel::Ticker("A".to_string()).clone(), Channel::Ticker("A".to_string()));
}

#[test]
fn error_messages() {
    assert_eq!(Error::Transport.message(), "connection failed or closed");
    assert_eq!(Error::Decode.message(), "malformed message");
    assert_eq!(
        Error::NotSubscribedToThisChannel(Channel::Fills).message(),
        "not subscribed to this channel"
    );
    assert_eq!(
        Error::MissingSubscriptionConfirmation.message(),
        "missing subscription confirmation"
    );
}

#[test]
fn connect_names_the_endpoint_and_the_login() {
    let opening: Opening<u64, String, i64> =
        Session::connect("key".to_string(), "secret".to_string(), None, 1557246346499);
    assert_eq!(opening.endpoint, "wss://ftx.com/ws");
    assert_eq!(opening.endpoint, ENDPOINT);
    assert_eq!(
        opening.login.text(),
        Command::login("key".to_string(), "secret", None, 1557246346499).text()
    );
    assert_eq!(opening.session.buffered(), 0);
    assert!(opening.session.subscriptions().is_empty());
    assert!(!opening.session.is_waiting());
}

#[test]
fn connect_us_names_the_other_endpoint() {
    let opening: Opening<u64, String, i64> = Session::connect_us(
        "key".to_string(),
        "secret".to_string(),
        Some("desk".to_string()),
        5,
    );
    assert_eq!(opening.endpoint, "wss://ftx.us/ws");
    assert_eq!(opening.endpoint, ENDPOINT_US);
    match opening.login {
        Command::Login { key, sign: tag, time, subaccount } => {
            assert_eq!(key, "key");
            assert_eq!(tag, sign("secret", 5));
            assert_eq!(time, 5);
            assert_eq!(subaccount, Some("desk".to_string()));
        }
        other => panic!("unexpected command {:?}", other),
    }
    assert_eq!(opening.session.buffered(), 0);
}
