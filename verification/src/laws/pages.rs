//! What is promised of the desktop's pages: what each of them shows of the relay.
use vstd::prelude::*;

use crate::page;
use crate::page::connecting::Status;
use crate::page::pairing::CameraFrame;
use crate::page::{turned, PageView};
use crate::pages;
use crate::pages::PeerName;
use crate::pairing;
use crate::relay::link::{PeerStatus, State};
use crate::relay::target::Target;
use crate::text::decimal_text;

verus! {

/// While a connection is made its page shows the relay's phase, with one step done until the
/// Passport is linked, two until the session stands, and three from there on. The other pages
/// stay as they are.
pub proof fn law_connecting_page_shows_the_phase(
    before: page::connecting::Page,
    other: PageView,
    state: State,
)
    requires
        !(other is Connecting),
        !(state.phase is Unpaired),
        !(state.phase is Ready),
        !(state.phase is Failed),
    ensures
        turned(other, state) == other,
        turned(PageView::Connecting(before), state) matches PageView::Connecting(now) && {
            &&& state.phase is Searching ==> now.status is Searching && now.completed == 1
            &&& state.phase is Connecting ==> now.status is Connecting && now.completed == 1
            &&& state.phase is BluetoothConnected ==> now.status is BluetoothConnected
                && now.completed == 2
            &&& state.phase is SecureSession ==> now.status is SecureSession && now.completed == 2
            &&& state.phase is SecureConnected ==> now.status is SecureConnected && now.completed
                == 3
            &&& state.phase is Provisioning ==> now.status is Provisioning && now.completed == 3
        },
{
}

/// Once the Passport is ready its page opens, whichever Passport it is, with its name and both
/// identities: from the page of a connection that did not fail, and from no other.
pub proof fn law_ready_passport_gets_its_page(page: PageView, state: State)
    requires
        state.phase is Ready,
    ensures
        ({
            let open = page matches PageView::Connecting(now) && !(now.status is Failed);
            &&& !open ==> turned(page, state) == page
            &&& open && state.peer is Some ==> {
                &&& turned(page, state) matches PageView::Paired(shown)
                &&& shown.connected
                &&& shown.name == (state.peer->0).name@
                &&& shown.passport_qid == (state.peer->0).passport_qid@
                &&& shown.desktop_qid == (state.peer->0).desktop_qid@
                &&& shown.receive == "0 B/s"@
                &&& shown.send == "0 B/s"@
                &&& !shown.confirming
            }
            &&& open && state.peer is None ==> {
                &&& turned(page, state) matches PageView::Connecting(shown)
                &&& shown.status is Failed
                &&& shown.completed == (page->Connecting_0).completed
            }
        }),
{
}

/// A failure shows on the page of a connection, which keeps the steps that were done, and on
/// that of a Passport, which keeps all but that it is there; the pairing page knows nothing
/// of it. An unpaired relay shows the pairing page: the one that is there, or a new one.
pub proof fn law_failure_and_unpairing_are_shown(page: PageView, state: State)
    ensures
        state.phase is Failed ==> match page {
            PageView::Connecting(before) => turned(page, state) matches PageView::Connecting(now)
                && now.status is Failed && now.completed == before.completed,
            PageView::Paired(before) => turned(page, state) == PageView::Paired(
                page::paired::PairedView { connected: false, ..before },
            ),
            PageView::Pairing(_) => turned(page, state) == page,
        },
        state.phase is Unpaired && page is Pairing ==> turned(page, state) == page,
        state.phase is Unpaired && !(page is Pairing) ==> (turned(
            page,
            state,
        ) matches PageView::Pairing(fresh) && fresh.camera_error is None && fresh.frame is None
            && fresh.target is None),
{
}

/// Every status has its words, and every step its own; what is done is positive, what comes
/// next goes on or failed, and the rest is muted.
pub proof fn law_steps_are_told(page: page::connecting::Page, step: int)
    ensures
        page.tone_of(step) is Positive <==> step <= page.completed,
        page.tone_of(step) is Accent <==> step == page.completed + 1 && !(page.status is Failed),
        page.tone_of(step) is Negative <==> step == page.completed + 1 && page.status is Failed,
        page.tone_of(step) is Muted <==> step > page.completed + 1,
        page::connecting::label_of(1) == "Pairing QR code verified"@,
        page::connecting::label_of(2) == "Bluetooth connection"@,
        page::connecting::label_of(3) == "Secure QLv2 session"@,
        page::connecting::label_of(4) == "Desktop services"@,
        page::connecting::fresh().status is Preparing,
        page::connecting::fresh().completed == 1,
        forall|status: Status| #[trigger]
            page.with_status(status).status == status && (status is Failed ==> page.with_status(
                status,
            ).completed == page.completed),
{
}

/// Every status of a connection has its words.
pub proof fn law_statuses_have_their_words(status: Status)
    ensures
        ({
            let words = page::connecting::message_of(status);
            &&& status is Preparing ==> words == "QR code verified. Preparing connection…"@
            &&& status is Searching ==> words == "Looking for Passport over Bluetooth…"@
            &&& status is Connecting ==> words == "Passport found. Opening Bluetooth connection…"@
            &&& status is BluetoothConnected ==> words
                == "Bluetooth connected. Starting secure session…"@
            &&& status is SecureSession ==> words == "Establishing the encrypted QLv2 session…"@
            &&& status is SecureConnected ==> words == "Secure session established."@
            &&& status is Provisioning ==> words == "Installing router and Foundation services…"@
            &&& status is Failed ==> words == "Connection failed. Check the logs and try again."@
        }),
{
}

/// A rate is written in bytes below a thousand, in kilobytes below a million and in megabytes
/// from there on, always as the whole rate and divided by just that unit.
pub proof fn law_rates_have_their_unit<F>(
    bytes_per_second: u64,
    tenths: F,
    kilobytes: String,
    megabytes: String,
    text: Seq<char>,
) where F: Fn(u64, u64) -> String
    requires
        forall|number: String| #[trigger]
            call_ensures(tenths, (bytes_per_second, 1000u64), number) ==> number == kilobytes,
        forall|number: String| #[trigger]
            call_ensures(tenths, (bytes_per_second, 1000000u64), number) ==> number == megabytes,
        page::paired::is_rate(bytes_per_second, tenths, text),
    ensures
        text == if bytes_per_second <= 999 {
            decimal_text(bytes_per_second as nat) + " B/s"@
        } else if bytes_per_second <= 999999 {
            kilobytes@ + " KB/s"@
        } else {
            megabytes@ + " MB/s"@
        },
{
}

/// Each step of a connection shows on its page, in its words and with as many steps done as
/// it means; a page that shows something else, and the Passport that waits for its page, are
/// left alone.
pub proof fn law_events_advance_the_connection(
    before: pages::connecting::ConnectingView,
    other: pages::PageView,
    peer: Option<PeerName>,
    event: pages::Event,
)
    requires
        !(other is Connecting),
        event is Searching || event is Connecting || event is BluetoothConnected || (
        event is Provisioning) || event == pages::Event::Status(PeerStatus::Initiator) || event
            == pages::Event::Status(PeerStatus::Connected),
    ensures
        pages::page_after(other, peer, event) == other,
        pages::peer_after(other, peer, event) == peer,
        pages::peer_after(pages::PageView::Connecting(before), peer, event) == peer,
        pages::page_after(
            pages::PageView::Connecting(before),
            peer,
            event,
        ) matches pages::PageView::Connecting(now) && {
            &&& now.failed == before.failed
            &&& event is Searching ==> now.completed == before.completed && now.status
                == "Looking for Prime over Bluetooth…"@
            &&& event is Connecting ==> now.completed == before.completed && now.status
                == "Prime found. Opening Bluetooth connection…"@
            &&& event is BluetoothConnected ==> now.completed == 2 && now.status
                == "Bluetooth connected. Starting secure session…"@
            &&& event == pages::Event::Status(PeerStatus::Initiator) ==> now.completed == 2
                && now.status == "Establishing the encrypted QLv2 session…"@
            &&& event == pages::Event::Status(PeerStatus::Connected) ==> now.completed == 3
                && now.status == "Secure session established."@
            &&& event is Provisioning ==> now.completed == 3 && now.status
                == "Installing router and Foundation services…"@
        },
{
}

/// A failure shows in its words on the page of a connection, which keeps the steps that were
/// done, and as an absence on that of a Passport, which keeps its name; the pairing page and
/// the Passport that waits are left alone.
pub proof fn law_events_show_failures(
    page: pages::PageView,
    peer: Option<PeerName>,
    event: pages::Event,
)
    requires
        event is Failed || event is ProvisioningFailed || event == pages::Event::Status(
            PeerStatus::Disconnected,
        ),
    ensures
        pages::peer_after(page, peer, event) == peer,
        page is Pairing ==> pages::page_after(page, peer, event) == page,
        page matches pages::PageView::Connecting(before) ==> (pages::page_after(
            page,
            peer,
            event,
        ) matches pages::PageView::Connecting(now) && now.failed && now.completed
            == before.completed && now.status == if event is Failed {
            "Could not connect to Prime."@
        } else if event is ProvisioningFailed {
            "Prime connected, but desktop services could not be prepared."@
        } else {
            "The secure connection was interrupted."@
        }),
        page matches pages::PageView::Paired(before) ==> (pages::page_after(
            page,
            peer,
            event,
        ) matches pages::PageView::Paired(now) && !now.connected && now.status
            == "Passport is disconnected"@ && now.description
            == "The secure session ended. Pair again to reconnect."@ && now.unpair_label
            == "Unpair and pair again"@ && now.device == before.device && now.identity
            == before.identity && now.receive == before.receive && now.send == before.send
            && now.confirming == before.confirming && now.unpairing == before.unpairing),
{
}

/// Once the Passport is ready, a connection that did not fail ends: on the page of the Passport
/// that was paired, with its name and identity, or as a failure where none was named. No other
/// page is opened or closed by it. A Passport that is named waits for its page, and one that
/// is unpaired is forgotten with whatever page there is.
pub proof fn law_events_open_and_close_the_passport(
    page: pages::PageView,
    peer: Option<PeerName>,
    named: PeerName,
)
    ensures
        ({
            let after = pages::page_after(page, peer, pages::Event::Ready);
            let waits = pages::peer_after(page, peer, pages::Event::Ready);
            let open = page matches pages::PageView::Connecting(now) && !now.failed;
            &&& !open ==> after == page && waits == peer
            &&& open ==> waits is None
            &&& open && peer is Some ==> {
                &&& after matches pages::PageView::Paired(shown)
                &&& shown.device == (peer->0).name@
                &&& shown.identity == (peer->0).qid@
                &&& shown.connected && !shown.confirming && !shown.unpairing
                &&& shown.status == "Passport is connected"@
                &&& shown.description == "The encrypted relay is ready for desktop services."@
                &&& shown.receive == "0 B/s"@ && shown.send == "0 B/s"@
                &&& shown.unpair_label == "Unpair Passport"@
            }
            &&& open && peer is None ==> {
                &&& after matches pages::PageView::Connecting(shown)
                &&& shown.failed
                &&& shown.completed == (page->Connecting_0).completed
                &&& shown.status == "Prime connected without identity details."@
            }
        }),
        pages::page_after(page, peer, pages::Event::Peer(named)) == page,
        pages::peer_after(page, peer, pages::Event::Peer(named)) == Some(named),
        pages::page_after(page, peer, pages::Event::Status(PeerStatus::Unpaired)) is Pairing,
        pages::peer_after(page, peer, pages::Event::Status(PeerStatus::Unpaired)) is None,
{
}

/// A connection starts with one step done and no failure; its steps are told as they stand.
pub proof fn law_event_steps_are_told(page: pages::connecting::ConnectingView, step: int)
    ensures
        pages::connecting::fresh().completed == 1,
        !pages::connecting::fresh().failed,
        pages::connecting::fresh().status == "QR code verified. Preparing connection…"@,
        pages::connecting::tone_of(page, step) is Positive <==> step <= page.completed,
        pages::connecting::tone_of(page, step) is Accent <==> step == page.completed + 1
            && !page.failed,
        pages::connecting::tone_of(page, step) is Negative <==> step == page.completed + 1
            && page.failed,
        pages::connecting::tone_of(page, step) is Muted <==> step > page.completed + 1,
{
}

/// Asking to unpair raises the question, calling it off takes it away, and while the Passport
/// is being unpaired no click does anything; unpairing itself keeps the Passport's name and
/// rates on the page.
pub proof fn law_unpairing_is_asked_for_once(
    page: pages::paired::PairedView,
    unpair: bool,
    cancel: bool,
)
    ensures
        ({
            let clicked = pages::paired::clicked(page, unpair, cancel);
            &&& page.unpairing ==> clicked == page
            &&& !page.unpairing && !page.confirming ==> clicked.confirming == unpair
            &&& !page.unpairing && page.confirming ==> clicked.confirming == !cancel
            &&& clicked.unpairing == page.unpairing
            &&& clicked.connected == page.connected
            &&& clicked.status == page.status && clicked.description == page.description
            &&& clicked.device == page.device && clicked.identity == page.identity
            &&& clicked.receive == page.receive && clicked.send == page.send
            &&& clicked.unpair_label == page.unpair_label
        }),
        ({
            let unpairing = pages::paired::unpairing(page);
            &&& unpairing.unpairing && !unpairing.confirming
            &&& unpairing.status == "Clearing the pairing…"@
            &&& unpairing.description == "Passport will be forgotten before pairing again."@
            &&& unpairing.device == page.device && unpairing.identity == page.identity
            &&& unpairing.receive == page.receive && unpairing.send == page.send
            &&& unpairing.connected == page.connected
            &&& unpairing.unpair_label == page.unpair_label
        }),
{
}

/// The scanning page shows each event in its words and colour; it scans again exactly if the
/// pairing failed or the session ended, and otherwise as it did.
pub proof fn law_scanning_page_shows_each_event(page: pairing::Page, event: pairing::Event)
    ensures
        ({
            let (scanning, tone, words) = pairing::page_after(page, event);
            let failed = event is Failed || event == pairing::Event::Peer(PeerStatus::Disconnected)
                || event == pairing::Event::Peer(PeerStatus::Unpaired);
            let paired = event == pairing::Event::Peer(PeerStatus::Connected);
            &&& scanning == (failed || page.scanning)
            &&& tone is Negative <==> failed
            &&& tone is Positive <==> paired
            &&& tone is Accent <==> !failed && !paired
            &&& failed ==> words == "Pairing failed. Show the QR code to try again."@
            &&& paired ==> words == "Prime is securely paired."@
            &&& event is Searching ==> words == "Searching for Prime…"@
            &&& event is Connecting ==> words == "Connecting over Bluetooth…"@
            &&& event == pairing::Event::Peer(PeerStatus::Initiator) ==> words
                == "Establishing a secure QLv2 session…"@
        }),
        pairing::QR_SCAN_INTERVAL == 50,
{
}

/// The page follows the relay: it is the one that the phase turns it to, or stays while the
/// phase does; the page of a Passport shows the rates that the relay has at any time, and keeps
/// all else. A camera is started exactly for a new pairing page.
pub proof fn law_page_follows_the_relay<F>(
    before: page::App,
    state: State,
    tenths: F,
    after: page::App,
    camera: bool,
) where F: Fn(u64, u64) -> String
    requires
        before.updates(state, tenths, after, camera),
    ensures
        after.phase == state.phase,
        ({
            let due = if before.phase == state.phase {
                before.page@
            } else {
                turned(before.page@, state)
            };
            &&& due matches PageView::Paired(paired) ==> {
                &&& after.page@ matches PageView::Paired(now)
                &&& page::paired::is_rate(state.rx_bytes_per_second, tenths, now.receive)
                &&& page::paired::is_rate(state.tx_bytes_per_second, tenths, now.send)
                &&& now.connected == paired.connected && now.confirming == paired.confirming
                &&& now.name == paired.name && now.passport_qid == paired.passport_qid
                &&& now.desktop_qid == paired.desktop_qid
            }
            &&& !(due is Paired) ==> after.page@ == due
        }),
        camera <==> before.phase != state.phase && state.phase is Unpaired && !(
        before.page@ is Pairing),
{
}

/// Pairing starts exactly with a click while a Passport is found, and with that one; starting
/// over is for a connection that failed; and a Passport is unpaired only by confirming it. In
/// every other case nothing is told to the relay, and only the question on the Passport's page
/// may come or go.
pub proof fn law_clicks_are_obeyed(
    before: page::App,
    clicks: page::Clicks,
    after: page::App,
    command: Option<page::Command>,
)
    requires
        before.renders(clicks, after, command),
    ensures
        after.phase == before.phase,
        before.page@ matches PageView::Pairing(shown) ==> {
            &&& clicks.start && shown.target is Some ==> command == Some(
                page::Command::Pair(shown.target->0),
            ) && after.page@ == PageView::Connecting(
                page::connecting::Page { status: Status::Preparing, completed: 1 },
            )
            &&& !clicks.start || shown.target is None ==> command is None && after.page@
                == before.page@
        },
        before.page@ matches PageView::Connecting(shown) ==> {
            &&& shown.status is Failed && clicks.start_over ==> command == Some(
                page::Command::Unpair,
            ) && (after.page@ matches PageView::Pairing(fresh) && fresh.target is None)
            &&& !(shown.status is Failed) || !clicks.start_over ==> command is None && after.page@
                == before.page@
        },
        before.page@ matches PageView::Paired(shown) ==> {
            &&& shown.confirming && clicks.confirm ==> command == Some(page::Command::Unpair) && (
            after.page@ matches PageView::Pairing(fresh) && fresh.target is None)
            &&& !shown.confirming || !clicks.confirm ==> {
                &&& command is None
                &&& after.page@ matches PageView::Paired(now)
                &&& !shown.confirming ==> now.confirming == clicks.unpair
                &&& shown.confirming ==> now.confirming == !clicks.cancel
                &&& now.connected == shown.connected && now.name == shown.name
                &&& now.passport_qid == shown.passport_qid && now.desktop_qid == shown.desktop_qid
                &&& now.receive == shown.receive && now.send == shown.send
            }
        },
{
}

/// On the pages that events drive, any Passport whose code is found is paired with; a failed
/// connection is started over, without the Passport that waited; and a Passport is unpaired
/// once, after the question. Nothing else is asked of the relay.
pub proof fn law_event_clicks_are_obeyed(
    before: pages::Pages,
    target: Option<Target>,
    start_over: bool,
    unpair: bool,
    cancel: bool,
    confirm: bool,
    after: pages::Pages,
    action: Option<pages::Action>,
)
    requires
        before.renders(target, start_over, unpair, cancel, confirm, after, action),
    ensures
        before.page@ is Pairing ==> {
            &&& target matches Some(found) ==> action == Some(pages::Action::Pair(found)) && (
            after.page@ matches pages::PageView::Connecting(now) && now.completed == 1
                && !now.failed) && after.peer == before.peer
            &&& target is None ==> action is None && after == before
        },
        before.page@ matches pages::PageView::Connecting(shown) ==> {
            &&& shown.failed && start_over ==> action == Some(pages::Action::StartOver)
                && after.page@ is Pairing && after.peer is None
            &&& !shown.failed || !start_over ==> action is None && after == before
        },
        before.page@ matches pages::PageView::Paired(shown) ==> {
            &&& !shown.unpairing && shown.confirming && confirm ==> action == Some(
                pages::Action::Unpair,
            ) && (after.page@ matches pages::PageView::Paired(now) && now.unpairing
                && !now.confirming && now.device == shown.device)
            &&& shown.unpairing ==> action is None && after.page@ == before.page@
            &&& !shown.confirming || !confirm ==> action is None
            &&& !shown.unpairing && !shown.confirming ==> (
            after.page@ matches pages::PageView::Paired(now) && now.confirming == unpair
                && !now.unpairing && now.device == shown.device)
            &&& !shown.unpairing && shown.confirming && !confirm ==> (
            after.page@ matches pages::PageView::Paired(now) && now.confirming == !cancel
                && !now.unpairing && now.device == shown.device)
            &&& after.peer == before.peer
        },
{
}

/// On the scanning page a reset comes first and scans anew; else a Passport whose code is found
/// is paired with and the scanning stops; else nothing changes.
pub proof fn law_scanning_page_obeys(
    before: pairing::Page,
    target: Option<Target>,
    reset: bool,
    after: pairing::Page,
    action: Option<pairing::Action>,
)
    requires
        before.renders(target, reset, after, action),
    ensures
        reset ==> action == Some(pairing::Action::Reset) && after.scanning && after.tone is Accent
            && after.status@ == "Looking for a pairing QR code…"@,
        !reset && target is Some ==> action == Some(pairing::Action::Pair(target->0))
            && !after.scanning && after.tone is Accent && after.status@
            == "QR code found. Connecting to Prime…"@,
        !reset && target is None ==> action is None && after == before,
{
}

/// Every picture is kept to be shown, as it came; a Passport that it shows is the one that was
/// found, and one that was found before stays until another one is.
pub proof fn law_found_passport_stays(page: page::pairing::Page, frame: CameraFrame)
    ensures
        ({
            let now = page.with_frame(frame);
            &&& frame.target is Some ==> now.target == frame.target
            &&& frame.target is None ==> now.target == page.target
            &&& now.frame matches Some(shown) && shown.luma == frame.luma && shown.width
                == frame.width && shown.height == frame.height
            &&& now.camera_error == page.camera_error
        }),
{
}

/// What is promised of a page by what it shows is promised of every field of it.
pub proof fn law_pages_show_every_field(
    paired: page::paired::Page,
    event_paired: pages::paired::Page,
    event_connecting: pages::connecting::Page,
    scanning: page::pairing::Page,
    connecting: page::connecting::Page,
)
    ensures
        paired@.connected <==> paired.status is Connected,
        paired@.name == paired.passport_name@,
        paired@.passport_qid == paired.passport_qid@,
        paired@.desktop_qid == paired.desktop_qid@,
        paired@.receive == paired.receive_rate@,
        paired@.send == paired.send_rate@,
        paired@.confirming == paired.confirming,
        event_paired@.status == event_paired.status@,
        event_paired@.description == event_paired.description@,
        event_paired@.device == event_paired.device@,
        event_paired@.identity == event_paired.identity@,
        event_paired@.receive == event_paired.receive_rate@,
        event_paired@.send == event_paired.send_rate@,
        event_paired@.unpair_label == event_paired.unpair_label@,
        event_paired@.connected == event_paired.connected,
        event_paired@.confirming == event_paired.confirming,
        event_paired@.unpairing == event_paired.unpairing,
        event_connecting@.status == event_connecting.status@,
        event_connecting@.completed == event_connecting.completed,
        event_connecting@.failed == event_connecting.failed,
        page::Page::Pairing(scanning)@ == PageView::Pairing(scanning),
        page::Page::Connecting(connecting)@ == PageView::Connecting(connecting),
        page::Page::Paired(paired)@ == PageView::Paired(paired@),
        pages::Page::Pairing@ == pages::PageView::Pairing,
        pages::Page::Connecting(event_connecting)@ == pages::PageView::Connecting(
            event_connecting@,
        ),
        pages::Page::Paired(event_paired)@ == pages::PageView::Paired(event_paired@),
{
}

} // verus!
