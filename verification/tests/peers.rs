use ql_lab::platform::{Inbound, Timer};
use ql_lab::protocol::record::{PeerBundle, RecordHeader, RecordType, RouteHeader};
use ql_lab::qid::Qid;
use ql_lab::relay::link::PeerStatus;
use ql_lab::rpc::{arguments, is_pong, ping, pong, requested_length, Key, Ping, Transfer};
use ql_lab::server::{
    delivered, handle_inbound, handle_peer_status, handle_recv_error, started, Config, ServerStep,
};
use ql_lab::table::Table;
use ql_lab::terminal::{
    pairing_image, poll_delay, symbol_image, Activity, App, Request,
};
use ql_lab::text::{
    decimal, eq_ignore_ascii_case, parse, same_text, strip_prefix, trim, ParseError,
};
use ql_lab::theme::Tone;

fn qid(byte: u8) -> Qid {
    Qid { bytes: vec![byte] }
}

#[test]
fn numbers_are_written_and_read() {
    for n in [0, 9, 10, 255, 1_000_000, u64::MAX] {
        assert_eq!(decimal(n), n.to_string());
        assert_eq!(parse(&decimal(n), u64::MAX), Ok(n));
    }
    assert_eq!(parse("+007", 10), Ok(7));
    assert_eq!(parse("", 10), Err(ParseError::Empty));
    for text in ["+", "-", "-1", "1x", "++1", " 1", "１"] {
        assert_eq!(parse(text, 100), Err(ParseError::InvalidDigit), "{text}");
    }
    assert_eq!(parse("11", 10), Err(ParseError::Overflow));
    assert_eq!(parse("1x1", 10), Err(ParseError::InvalidDigit));
    assert_eq!(parse("11x", 10), Err(ParseError::Overflow));
    assert_eq!(ParseError::Empty.message(), "cannot parse integer from empty string");
    assert_eq!(ParseError::InvalidDigit.message(), "invalid digit found in string");
}

#[test]
fn texts_are_compared_and_cut() {
    assert!(same_text("aé", "aé"));
    assert!(!same_text("a", "A"));
    assert!(eq_ignore_ascii_case("aZ:é", "Az:é"));
    assert!(!eq_ignore_ascii_case("é", "É"));
    assert_eq!(strip_prefix("pingx", "ping"), Some("x"));
    assert_eq!(strip_prefix("pin", "ping"), None);
    assert_eq!(trim("\u{3000} a b\t\n"), "a b");
    assert_eq!(trim(" \u{85} "), "");
    for code in 0..=0x10ffff_u32 {
        if let Some(c) = char::from_u32(code) {
            let text = format!("{c}x{c}");
            assert_eq!(trim(&text), text.trim(), "{code:x}");
        }
    }
}

#[test]
fn pings_get_their_pongs() {
    assert_eq!(ping(3), "ping 3");
    assert_eq!(pong("ping 3").as_deref(), Some("pong 3"));
    assert!(is_pong("pong 3", 3));
    assert!(!is_pong("pong 4", 3));
    assert_eq!(pong("ping "), Some("pong ".to_owned()));
    assert_eq!(pong("ping"), None);
    assert_eq!(pong("Ping 3"), None);
}

#[test]
fn routes_are_one_byte() {
    assert_eq!(Ping::key(), Key(1));
    assert_eq!(Transfer::key(), Key(2));
    for key in [Ping::key(), Transfer::key()] {
        let mut bytes = Vec::new();
        key.encode(&mut bytes);
        assert_eq!(bytes.len(), key.encoded_len());
        assert_eq!(Key::decode(&bytes), Some(key));
    }
    assert_eq!(Key::decode(&[]), None);
    assert_eq!(Key::decode(&[0]), None);
    assert_eq!(Key::decode(&[3]), None);
    assert_eq!(Key::decode(&[1, 2]), None);
}

#[test]
fn requested_lengths_are_limited() {
    assert_eq!(requested_length("1"), Some(1));
    assert_eq!(requested_length("16777216"), Some(16_777_216));
    assert_eq!(requested_length("16777217"), None);
    assert_eq!(requested_length("0"), None);
    assert_eq!(requested_length("x"), None);
}

#[test]
fn arguments_name_the_router() {
    let given = |list: &[&str]| list.iter().map(|text| text.to_string()).collect::<Vec<_>>();
    let (address, bundle) = arguments(&given(&[])).unwrap();
    assert_eq!((address.as_str(), bundle.as_str()), ("router.foundation.xyz:7447", "bundle.bin"));
    let (address, bundle) = arguments(&given(&["a:1", "b"])).unwrap();
    assert_eq!((address.as_str(), bundle.as_str()), ("a:1", "b"));
    assert!(arguments(&given(&["a", "b", "c"])).is_none());
}

fn header(bytes: &[u8]) -> Result<RecordHeader, String> {
    if bytes.len() < 3 {
        return Err("short".to_owned());
    }
    Ok(RecordHeader {
        version: 2,
        route: RouteHeader { sender: qid(bytes[0]), recipient: qid(bytes[1]) },
        record_type: if bytes[2] == 0 { RecordType::Handshake } else { RecordType::Session },
    })
}

fn opens(bytes: &[u8]) -> bool {
    bytes.get(3) == Some(&1)
}

#[test]
fn server_starts_one_session_a_sender() {
    let mut sessions = Table::new();
    let step = |sessions: &Table, record: &[u8]| {
        handle_inbound(sessions, &qid(9), record.to_vec(), header, opens)
    };
    assert!(matches!(step(&sessions, &[1]), ServerStep::Invalid(text) if text == "short"));
    assert!(matches!(step(&sessions, &[1, 8, 0, 1]), ServerStep::Drop));
    assert!(matches!(step(&sessions, &[1, 9, 1, 1]), ServerStep::Drop));
    assert!(matches!(step(&sessions, &[1, 9, 0, 2]), ServerStep::Drop));
    match step(&sessions, &[1, 9, 0, 1]) {
        ServerStep::Start { sender, record } => {
            assert_eq!(sender, qid(1));
            assert_eq!(record, vec![1, 9, 0, 1]);
            started(&mut sessions, sender, 5);
        }
        other => panic!("{other:?}"),
    }
    match step(&sessions, &[1, 9, 1, 7]) {
        ServerStep::Deliver { session, sender, record } => {
            assert_eq!((session, record), (5, vec![1, 9, 1, 7]));
            delivered(&mut sessions, &sender, true);
            assert_eq!(sessions.get(&sender), Some(5));
            delivered(&mut sessions, &sender, false);
        }
        other => panic!("{other:?}"),
    }
    assert!(matches!(step(&sessions, &[1, 9, 1, 7]), ServerStep::Drop));

    for status in [PeerStatus::Disconnected, PeerStatus::Unpaired] {
        started(&mut sessions, qid(1), 6);
        handle_peer_status(&mut sessions, &qid(1), PeerStatus::Connected);
        assert_eq!(sessions.get(&qid(1)), Some(6));
        handle_peer_status(&mut sessions, &qid(1), status);
        assert_eq!(sessions.get(&qid(1)), None);
    }
    started(&mut sessions, qid(1), 7);
    handle_recv_error(&mut sessions, &qid(1));
    assert_eq!(sessions.get(&qid(1)), None);
}

#[test]
fn server_settings() {
    let config = Config::default();
    assert_eq!(config.identity_path, "foundation-server/identity.bin");
    assert_eq!(config.bundle_path, "foundation-server/bundle.bin");
    assert_eq!(config.router.bundle_path, "ql-router/bundle.bin");
    assert_eq!(config.router.address, "127.0.0.1:7447");
}

#[test]
fn terminal_asks_only_a_peer_that_permits_it() {
    let mut app = App::new("router:1");
    assert_eq!(app.router, "connecting to router:1");
    assert!(app.submit(true, false).is_none());
    app.online("router:1");
    assert_eq!(app.router, "Router online · router:1");
    assert!(!app.status(PeerStatus::Initiator));
    assert_eq!(app.peer_label(), ("● Pairing", Tone::Accent));
    assert!(app.status(PeerStatus::Connected));
    assert_eq!(app.peer_label(), ("● Authorizing", Tone::Accent));
    assert!(!app.enabled());
    app.permission(false);
    assert_eq!(app.echo_result, "Debug permission denied");
    app.permission(true);
    assert_eq!(app.peer_label(), ("● Connected", Tone::Positive));
    assert!(app.enabled());

    assert!(app.submit(false, false).is_none());
    assert!(matches!(app.submit(true, false), Some(Request::Echo(text)) if text == "hello Prime"));
    assert_eq!(app.echo_result, "Sending...");
    assert!(app.submit(true, true).is_none());
    app.finished(false, Ok("Reply".to_owned()));
    assert_eq!(app.echo_result, "Reply");
    assert!(matches!(app.submit(true, true), Some(Request::Download(size)) if size == "256"));
    assert_eq!(app.download_result, "Downloading...");
    app.progress("1.0/2.0 KiB".to_owned());
    assert_eq!(app.download_result, "1.0/2.0 KiB");
    app.finished(true, Err("broken".to_owned()));
    assert_eq!(app.download_result, "failed: broken");
    assert!(app.enabled());

    app.offline("gone");
    assert_eq!(app.router, "disconnected: gone");
    assert_eq!(app.peer_label(), ("○ Disconnected", Tone::Muted));
    assert!(!app.enabled());
}

#[test]
fn terminal_shows_its_peer() {
    let mut app = App::new("r");
    assert_eq!(app.pairing_slot(), Some("—"));
    app.online("r");
    assert_eq!(app.pairing_slot(), None);
    assert_eq!(app.peer_text(), ("".to_owned(), "".to_owned()));
    app.peer_details =
        Some(PeerBundle { qid: qid(0xab), name: "Prime".to_owned(), encoded: vec![] });
    assert_eq!(app.pairing_slot(), Some("Paired"));
    assert_eq!(app.peer_text(), ("Prime".to_owned(), "ab".to_owned()));
}

#[test]
fn terminal_shows_what_it_served() {
    let mut activity = Activity::default();
    activity.echoed("hi");
    activity.served(12, Ok(()));
    assert_eq!(activity.echo, "In: hi");
    assert_eq!(activity.download, "served 12 bytes to Prime");
    activity.served(12, Err("reset".to_owned()));
    assert_eq!(activity.download, "download failed: reset");
    assert_eq!(activity.clone().echo, "In: hi");
}

#[test]
fn symbols_are_drawn_with_a_quiet_zone() {
    let pixels = symbol_image(1, &vec![true]);
    let side = 72;
    assert_eq!(pixels.len(), side * side * 3);
    for y in 0..side {
        for x in 0..side {
            let dark = (32..40).contains(&x) && (32..40).contains(&y);
            for channel in 0..3 {
                let expected = if dark { 0 } else { 255 };
                assert_eq!(pixels[(y * side + x) * 3 + channel], expected);
            }
        }
    }
}

#[test]
fn pairing_image_is_the_symbol_of_the_invitation() {
    let invite = [1, 2, 0xfe];
    let (side, pixels) = pairing_image(&invite).unwrap();
    let code = qrcode::QrCode::new("0102fe").unwrap();
    assert_eq!(side, (code.width() + 8) * 8);
    for y in 0..code.width() {
        for x in 0..code.width() {
            let at = (((y + 4) * 8 + 3) * side + (x + 4) * 8 + 5) * 3;
            let dark = code[(x, y)] == qrcode::Color::Dark;
            assert_eq!(pixels[at], if dark { 0 } else { 255 });
        }
    }
    assert!(pairing_image(&[0; 4000]).is_none());
}

#[test]
fn terminal_waits_as_long_as_it_may() {
    assert_eq!(poll_delay(64, 0, false, None, 0), Some(0));
    assert_eq!(poll_delay(0, 32, true, None, 0), Some(0));
    assert_eq!(poll_delay(63, 31, true, Some(500), 0), Some(16_000_000));
    assert_eq!(poll_delay(0, 0, false, Some(500), 100), Some(400));
    assert_eq!(poll_delay(0, 0, false, Some(500), 600), Some(0));
    assert_eq!(poll_delay(0, 0, false, None, 600), None);
}

#[test]
fn timers_go_off_only_when_set() {
    let mut timer = Timer::new();
    assert!(!timer.poll_wait(u64::MAX));
    assert_eq!(timer.set_deadline(Some(5)), Some(5));
    assert!(!timer.poll_wait(4));
    assert!(timer.poll_wait(5));
    assert_eq!(timer.set_deadline(None), None);
    assert!(!timer.poll_wait(u64::MAX));
    assert_eq!(Inbound::Ready(vec![1]).poll_recv(), Some(vec![1]));
    assert_eq!(Inbound::Pending.poll_recv(), None);
    assert_eq!(Inbound::Closed.poll_recv(), None);
}
