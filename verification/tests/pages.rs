use ql_lab::page::{connecting, paired, pairing, App, Clicks, Command, Page};
use ql_lab::pages;
use ql_lab::pairing as scanning;
use ql_lab::qid::Qid;
use ql_lab::relay::link::{Peer, PeerStatus, Phase, State};
use ql_lab::relay::target::{Invite, Target};
use ql_lab::theme::Tone;

const NONE: Clicks =
    Clicks { start: false, start_over: false, unpair: false, cancel: false, confirm: false };

fn tenths(n: u64, unit: u64) -> String {
    format!("{:.1}", n as f64 / unit as f64)
}

fn state(phase: Phase) -> State {
    State { phase, peer: None, rx_bytes_per_second: 0, tx_bytes_per_second: 0 }
}

fn peer() -> Peer {
    Peer {
        name: "Prime".to_owned(),
        passport_qid: "01".to_owned(),
        desktop_qid: "09".to_owned(),
    }
}

fn target() -> Target {
    Target {
        address: "AA".to_owned(),
        invite: Invite { qid: Qid { bytes: vec![1] }, encoded: vec![1] },
    }
}

fn found() -> pairing::CameraFrame {
    pairing::CameraFrame { luma: vec![0], width: 1, height: 1, target: Some(target()) }
}

fn connecting_app() -> App {
    let mut app = App::new();
    match &mut app.page {
        Page::Pairing(page) => page.set_camera_frame(found()),
        _ => unreachable!(),
    }
    let command = app.render_page(Clicks { start: true, ..NONE });
    assert!(matches!(command, Some(Command::Pair(target)) if target.address == "AA"));
    app
}

fn status(app: &App) -> (connecting::Status, u8) {
    match &app.page {
        Page::Connecting(page) => (page.status, page.completed),
        other => panic!("{other:?}"),
    }
}

#[test]
fn pages_follow_the_phases_of_a_pairing() {
    let mut app = connecting_app();
    assert_eq!(status(&app), (connecting::Status::Preparing, 1));
    for (phase, shown) in [
        (Phase::Searching, (connecting::Status::Searching, 1)),
        (Phase::Connecting, (connecting::Status::Connecting, 1)),
        (Phase::BluetoothConnected, (connecting::Status::BluetoothConnected, 2)),
        (Phase::SecureSession, (connecting::Status::SecureSession, 2)),
        (Phase::SecureConnected, (connecting::Status::SecureConnected, 3)),
        (Phase::Provisioning, (connecting::Status::Provisioning, 3)),
    ] {
        assert!(!app.update(&state(phase), tenths));
        assert_eq!(status(&app), shown);
    }
    let ready = State {
        peer: Some(peer()),
        rx_bytes_per_second: 1_250,
        tx_bytes_per_second: 999,
        ..state(Phase::Ready)
    };
    app.update(&ready, tenths);
    match &app.page {
        Page::Paired(page) => {
            assert_eq!(page.passport_name, "Prime");
            assert_eq!(page.passport_qid, "01");
            assert_eq!(page.desktop_qid, "09");
            assert_eq!(page.receive_rate, "1.2 KB/s");
            assert_eq!(page.send_rate, "999 B/s");
        }
        other => panic!("{other:?}"),
    }
    assert!(app.update(&state(Phase::Unpaired), tenths));
    assert!(matches!(app.page, Page::Pairing(_)));
}

#[test]
fn a_failed_connection_can_only_be_started_over() {
    let mut app = connecting_app();
    app.update(&state(Phase::SecureSession), tenths);
    app.update(&state(Phase::Failed), tenths);
    assert_eq!(status(&app), (connecting::Status::Failed, 2));
    app.update(&State { peer: Some(peer()), ..state(Phase::Ready) }, tenths);
    assert_eq!(status(&app), (connecting::Status::Failed, 2));
    assert!(app.render_page(NONE).is_none());
    let command = app.render_page(Clicks { start_over: true, ..NONE });
    assert!(matches!(command, Some(Command::Unpair)));
    assert!(matches!(app.page, Page::Pairing(_)));

    // a connection that is ready without a peer failed
    let mut app = connecting_app();
    app.update(&state(Phase::Ready), tenths);
    assert_eq!(status(&app).0, connecting::Status::Failed);
    // and one that did not fail cannot be started over
    let mut app = connecting_app();
    assert!(app.render_page(Clicks { start_over: true, ..NONE }).is_none());
}

#[test]
fn unpairing_is_confirmed() {
    let mut app = connecting_app();
    app.update(&State { peer: Some(peer()), ..state(Phase::Ready) }, tenths);
    assert!(app.render_page(Clicks { confirm: true, ..NONE }).is_none());
    assert!(app.render_page(Clicks { unpair: true, ..NONE }).is_none());
    assert!(app.render_page(Clicks { cancel: true, ..NONE }).is_none());
    assert!(app.render_page(Clicks { confirm: true, ..NONE }).is_none());
    assert!(app.render_page(Clicks { unpair: true, ..NONE }).is_none());
    let command = app.render_page(Clicks { confirm: true, ..NONE });
    assert!(matches!(command, Some(Command::Unpair)));
    assert!(matches!(app.page, Page::Pairing(_)));
}

#[test]
fn steps_are_coloured_by_progress() {
    let mut page = connecting::Page::new();
    assert_eq!(page.message(), "QR code verified. Preparing connection…");
    page.set_status(connecting::Status::BluetoothConnected);
    let tones: Vec<Tone> = (1..=4).map(|step| page.step(step).tone).collect();
    assert_eq!(tones, [Tone::Positive, Tone::Positive, Tone::Accent, Tone::Muted]);
    assert_eq!(page.step(2).mark, "●");
    assert_eq!(page.step(3).mark, "○");
    assert_eq!(page.step(4).label, "Desktop services");
    assert_eq!(page.tone(), Tone::Text);
    page.set_status(connecting::Status::Failed);
    assert_eq!(page.step(3).tone, Tone::Negative);
    assert_eq!(page.tone(), Tone::Negative);
    assert!(!page.can_finish());
}

#[test]
fn rates_are_written_in_three_units() {
    for (rate, text) in [
        (0, "0 B/s"),
        (999, "999 B/s"),
        (1_000, "1.0 KB/s"),
        (999_999, "1000.0 KB/s"),
        (1_000_000, "1.0 MB/s"),
        (12_345_678, "12.3 MB/s"),
    ] {
        assert_eq!(paired::rate(rate, &tenths), text);
    }
}

#[test]
fn paired_page_shows_the_connection() {
    let mut page = paired::Page::new(peer());
    let (headline, line, tone) = page.summary();
    assert_eq!(headline, "Passport is connected");
    assert_eq!(line, "The encrypted relay is ready for desktop services.");
    assert_eq!(tone, Tone::Positive);
    assert_eq!(page.unpair_label(), "Unpair Passport");
    page.disconnected();
    assert_eq!(page.summary().0, "Passport is disconnected");
    assert_eq!(page.unpair_label(), "Unpair and pair again");
}

#[test]
fn a_found_passport_stays_found() {
    let mut page = pairing::Page::new();
    assert_eq!(page.message(), "Looking for a pairing QR code…");
    assert!(page.render(true).is_none());
    page.set_camera_frame(found());
    page.set_camera_frame(pairing::CameraFrame {
        luma: vec![7],
        width: 1,
        height: 1,
        target: None,
    });
    assert!(page.found());
    assert_eq!(page.message(), "Pairing QR code found. Start pairing when ready.");
    assert_eq!(page.take_preview().unwrap().luma, vec![7]);
    assert!(page.take_preview().is_none());
    assert!(page.render(false).is_none());
    assert_eq!(page.render(true).unwrap().address, "AA");
    assert!(!page.found());
    page.camera_failed("no camera".to_owned());
    assert_eq!(page.camera_error.as_deref(), Some("no camera"));
}

fn prime() -> pages::PeerName {
    pages::PeerName { name: "Prime".to_owned(), qid: "01".to_owned() }
}

fn events_to_connecting() -> pages::Pages {
    let mut pages = pages::Pages::new();
    let action = pages.render(Some(target()), false, false, false, false);
    assert!(matches!(action, Some(pages::Action::Pair(_))));
    pages
}

#[test]
fn events_drive_the_pages() {
    let mut pages = events_to_connecting();
    let shown = |pages: &pages::Pages| match &pages.page {
        pages::Page::Connecting(page) => (page.status.clone(), page.completed, page.failed),
        other => panic!("{other:?}"),
    };
    for (event, status, completed) in [
        (pages::Event::Searching, "Looking for Prime over Bluetooth…", 1),
        (pages::Event::Connecting, "Prime found. Opening Bluetooth connection…", 1),
        (pages::Event::BluetoothConnected, "Bluetooth connected. Starting secure session…", 2),
        (
            pages::Event::Status(PeerStatus::Initiator),
            "Establishing the encrypted QLv2 session…",
            2,
        ),
        (pages::Event::Status(PeerStatus::Connected), "Secure session established.", 3),
        (pages::Event::Provisioning, "Installing router and Foundation services…", 3),
    ] {
        pages.input(event);
        assert_eq!(shown(&pages), (status.to_owned(), completed, false));
    }
    match &pages.page {
        pages::Page::Connecting(page) => {
            assert_eq!(page.render_step(4).tone, Tone::Accent);
            assert!(page.render_step(4).outlined);
            assert_eq!(page.render_step(5).text, Tone::Muted);
        }
        _ => unreachable!(),
    }
    pages.input(pages::Event::Peer(prime()));
    pages.input(pages::Event::Ready);
    match &mut pages.page {
        pages::Page::Paired(page) => {
            assert_eq!(page.device, "Prime");
            assert_eq!(page.identity, "01");
            assert_eq!(page.tone(), Tone::Positive);
            page.rates(2_000, 3, tenths);
            assert_eq!(page.receive_rate, "2.0 KB/s");
            assert_eq!(page.send_rate, "3 B/s");
        }
        other => panic!("{other:?}"),
    }
    assert!(pages.render(None, false, true, false, false).is_none());
    let action = pages.render(None, false, false, false, true);
    assert!(matches!(action, Some(pages::Action::Unpair)));
    match &pages.page {
        pages::Page::Paired(page) => {
            assert_eq!(page.status, "Clearing the pairing…");
            assert_eq!(page.tone(), Tone::Accent);
        }
        other => panic!("{other:?}"),
    }
    // nothing is asked while the Passport is being unpaired
    assert!(pages.render(None, false, true, false, true).is_none());
    pages.input(pages::Event::Status(PeerStatus::Unpaired));
    assert!(matches!(pages.page, pages::Page::Pairing));
}

#[test]
fn event_failures_say_what_went_wrong() {
    for (event, words) in [
        (
            pages::Event::Status(PeerStatus::Disconnected),
            "The secure connection was interrupted.",
        ),
        (pages::Event::Failed, "Could not connect to Prime."),
        (
            pages::Event::ProvisioningFailed,
            "Prime connected, but desktop services could not be prepared.",
        ),
        (pages::Event::Ready, "Prime connected without identity details."),
    ] {
        let mut pages = events_to_connecting();
        pages.input(event);
        match &pages.page {
            pages::Page::Connecting(page) => {
                assert_eq!(page.status, words);
                assert!(!page.can_finish());
            }
            other => panic!("{other:?}"),
        }
        let action = pages.render(None, true, false, false, false);
        assert!(matches!(action, Some(pages::Action::StartOver)));
        assert!(matches!(pages.page, pages::Page::Pairing));
    }
    let mut pages = events_to_connecting();
    pages.input(pages::Event::Peer(prime()));
    pages.input(pages::Event::Ready);
    pages.input(pages::Event::Failed);
    match &pages.page {
        pages::Page::Paired(page) => {
            assert_eq!(page.status, "Passport is disconnected");
            assert_eq!(page.unpair_label, "Unpair and pair again");
            assert_eq!(page.tone(), Tone::Negative);
        }
        other => panic!("{other:?}"),
    }
}

#[test]
fn scanning_page_shows_the_pairing_on_the_spot() {
    let mut page = scanning::Page::new();
    assert!(page.scans(true));
    assert!(!page.scans(false));
    assert!(page.render(None, false).is_none());
    assert!(matches!(page.render(Some(target()), false), Some(scanning::Action::Pair(_))));
    assert!(!page.scans(true));
    assert_eq!(page.status, "QR code found. Connecting to Prime…");
    for (event, tone, words) in [
        (scanning::Event::Searching, Tone::Accent, "Searching for Prime…"),
        (scanning::Event::Connecting, Tone::Accent, "Connecting over Bluetooth…"),
        (
            scanning::Event::Peer(PeerStatus::Initiator),
            Tone::Accent,
            "Establishing a secure QLv2 session…",
        ),
        (scanning::Event::Peer(PeerStatus::Connected), Tone::Positive, "Prime is securely paired."),
    ] {
        page.input(event);
        assert_eq!((page.scanning, page.tone, page.status), (false, tone, words));
    }
    for event in [
        scanning::Event::Failed,
        scanning::Event::Peer(PeerStatus::Unpaired),
        scanning::Event::Peer(PeerStatus::Disconnected),
    ] {
        page.render(Some(target()), false);
        page.input(event);
        assert!(page.scanning);
        assert_eq!(page.tone, Tone::Negative);
        assert_eq!(page.status, "Pairing failed. Show the QR code to try again.");
    }
    // a reset comes before a Passport that was found
    assert!(matches!(page.render(Some(target()), true), Some(scanning::Action::Reset)));
    assert!(page.scanning);
    assert_eq!(page.status, "Looking for a pairing QR code…");
}
