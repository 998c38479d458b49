//! The desktop's pages as the relay's events drive them, one event at a time.
use vstd::prelude::*;

pub mod connecting;
pub mod paired;

use crate::relay::link::PeerStatus;
use crate::relay::target::Target;

verus! {

/// The Passport's name and identity, as they are shown.
#[derive(Debug)]
pub struct PeerName {
    pub name: String,
    pub qid: String,
}

/// What happened to the relay.
#[derive(Debug)]
pub enum Event {
    Searching,
    Connecting,
    BluetoothConnected,
    Peer(PeerName),
    Status(PeerStatus),
    Provisioning,
    Ready,
    Failed,
    ProvisioningFailed,
}

/// What the user asks of the relay.
#[derive(Debug)]
pub enum Action {
    Pair(Target),
    StartOver,
    Unpair,
}

/// The page that is shown.
#[derive(Debug)]
pub enum Page {
    Pairing,
    Connecting(connecting::Page),
    Paired(paired::Page),
}

/// A page by what it shows.
#[verifier::ext_equal]
pub enum PageView {
    Pairing,
    Connecting(connecting::ConnectingView),
    Paired(paired::PairedView),
}

impl View for Page {
    type V = PageView;

    open spec fn view(&self) -> PageView {
        match self {
            Page::Pairing => PageView::Pairing,
            Page::Connecting(page) => PageView::Connecting(page@),
            Page::Paired(page) => PageView::Paired(page@),
        }
    }
}

/// The pages.
#[derive(Debug)]
pub struct Pages {
    pub page: Page,
    /// The Passport that was paired, until its page is opened.
    pub peer: Option<PeerName>,
}

/// The page after a failure, which is shown in these words where a connection was being
/// made.
pub open spec fn failed_page(page: PageView, message: Seq<char>) -> PageView {
    match page {
        PageView::Pairing => PageView::Pairing,
        PageView::Connecting(page) => PageView::Connecting(
            connecting::ConnectingView { status: message, failed: true, ..page },
        ),
        PageView::Paired(page) => PageView::Paired(paired::without_peer(page)),
    }
}

/// The page after a step of the connection.
pub open spec fn advanced(page: PageView, status: Seq<char>, completed: Option<u8>) -> PageView {
    match page {
        PageView::Connecting(page) => PageView::Connecting(
            connecting::ConnectingView {
                status,
                completed: match completed {
                    Some(completed) => completed,
                    None => page.completed,
                },
                ..page
            },
        ),
        _ => page,
    }
}

/// The page after an event.
pub open spec fn page_after(page: PageView, peer: Option<PeerName>, event: Event) -> PageView {
    match event {
        Event::Searching => advanced(page, "Looking for Prime over Bluetooth…"@, None),
        Event::Connecting => advanced(
            page,
            "Prime found. Opening Bluetooth connection…"@,
            None,
        ),
        Event::BluetoothConnected => advanced(
            page,
            "Bluetooth connected. Starting secure session…"@,
            Some(2),
        ),
        Event::Peer(_) => page,
        Event::Status(PeerStatus::Initiator) => advanced(
            page,
            "Establishing the encrypted QLv2 session…"@,
            Some(2),
        ),
        Event::Status(PeerStatus::Connected) => advanced(
            page,
            "Secure session established."@,
            Some(3),
        ),
        Event::Status(PeerStatus::Disconnected) => failed_page(
            page,
            "The secure connection was interrupted."@,
        ),
        Event::Status(PeerStatus::Unpaired) => PageView::Pairing,
        Event::Provisioning => advanced(
            page,
            "Installing router and Foundation services…"@,
            Some(3),
        ),
        Event::Ready => match page {
            PageView::Connecting(connecting) if !connecting.failed => match peer {
                Some(peer) => PageView::Paired(paired::opened(peer)),
                None => failed_page(page, "Prime connected without identity details."@),
            },
            _ => page,
        },
        Event::Failed => failed_page(page, "Could not connect to Prime."@),
        Event::ProvisioningFailed => failed_page(
            page,
            "Prime connected, but desktop services could not be prepared."@,
        ),
    }
}

/// The Passport that waits for its page after an event.
pub open spec fn peer_after(page: PageView, peer: Option<PeerName>, event: Event) -> Option<
    PeerName,
> {
    match event {
        Event::Peer(peer) => Some(peer),
        Event::Status(PeerStatus::Unpaired) => None,
        Event::Ready => match page {
            PageView::Connecting(connecting) if !connecting.failed => None,
            _ => peer,
        },
        _ => peer,
    }
}

impl Pages {
    /// The pages at the start.
    pub fn new() -> (pages: Self)
        ensures
            pages.page@ == PageView::Pairing,
            pages.peer is None,
    {
        Pages { page: Page::Pairing, peer: None }
    }

    /// Shows what happened to the relay.
    pub fn input(&mut self, event: Event)
        ensures
            final(self).page@ == page_after(old(self).page@, old(self).peer, event),
            final(self).peer == peer_after(old(self).page@, old(self).peer, event),
    {
        match event {
            Event::Searching => {
                if let Page::Connecting(page) = &mut self.page {
                    page.searching();
                }
            },
            Event::Connecting => {
                if let Page::Connecting(page) = &mut self.page {
                    page.connecting();
                }
            },
            Event::BluetoothConnected => {
                if let Page::Connecting(page) = &mut self.page {
                    page.bluetooth_connected();
                }
            },
            Event::Peer(peer) => {
                self.peer = Some(peer);
            },
            Event::Status(PeerStatus::Initiator) => {
                if let Page::Connecting(page) = &mut self.page {
                    page.secure_session();
                }
            },
            Event::Status(PeerStatus::Connected) => {
                if let Page::Connecting(page) = &mut self.page {
                    page.secure_connected();
                }
            },
            Event::Status(PeerStatus::Disconnected) => {
                self.failed("The secure connection was interrupted.");
            },
            Event::Status(PeerStatus::Unpaired) => {
                self.peer = None;
                self.page = Page::Pairing;
            },
            Event::Provisioning => {
                if let Page::Connecting(page) = &mut self.page {
                    page.provisioning();
                }
            },
            Event::Ready => {
                let ready = match &self.page {
                    Page::Connecting(page) => page.can_finish(),
                    _ => false,
                };
                if ready {
                    match self.peer.take() {
                        Some(peer) => {
                            self.page = Page::Paired(paired::Page::new(peer));
                        },
                        None => self.failed("Prime connected without identity details."),
                    }
                }
            },
            Event::Failed => self.failed("Could not connect to Prime."),
            Event::ProvisioningFailed => self.failed(
                "Prime connected, but desktop services could not be prepared.",
            ),
        }
    }

    /// What comes of what the user asks for on the page.
    pub open spec fn renders(
        self,
        target: Option<Target>,
        start_over: bool,
        unpair: bool,
        cancel: bool,
        confirm: bool,
        after: Self,
        action: Option<Action>,
    ) -> bool {
        match self.page@ {
            PageView::Pairing => match target {
                Some(target) => {
                    &&& action == Some(Action::Pair(target))
                    &&& after.page@ == PageView::Connecting(connecting::fresh())
                    &&& after.peer == self.peer
                },
                None => action is None && after == self,
            },
            PageView::Connecting(page) => if page.failed && start_over {
                &&& action == Some(Action::StartOver)
                &&& after.page@ == PageView::Pairing
                &&& after.peer is None
            } else {
                action is None && after == self
            },
            PageView::Paired(page) => {
                &&& after.peer == self.peer
                &&& if !page.unpairing && page.confirming && confirm {
                    &&& action == Some(Action::Unpair)
                    &&& after.page@ == PageView::Paired(paired::unpairing(page))
                } else {
                    &&& action is None
                    &&& after.page@ == PageView::Paired(paired::clicked(page, unpair, cancel))
                }
            },
        }
    }

    /// Does what the user asks for on the page: `target` is the Passport to pair with on the
    /// pairing page, the others tell which button was clicked.
    pub fn render(
        &mut self,
        target: Option<Target>,
        start_over: bool,
        unpair: bool,
        cancel: bool,
        confirm: bool,
    ) -> (action: Option<Action>)
        ensures
            old(self).renders(target, start_over, unpair, cancel, confirm, *final(self), action),
            match old(self).page@ {
                PageView::Pairing => match target {
                    Some(target) => {
                        &&& action == Some(Action::Pair(target))
                        &&& final(self).page@ == PageView::Connecting(connecting::fresh())
                        &&& final(self).peer == old(self).peer
                    },
                    None => action is None && *final(self) == *old(self),
                },
                PageView::Connecting(page) => if page.failed && start_over {
                    &&& action == Some(Action::StartOver)
                    &&& final(self).page@ == PageView::Pairing
                    &&& final(self).peer is None
                } else {
                    action is None && *final(self) == *old(self)
                },
                PageView::Paired(page) => {
                    &&& final(self).peer == old(self).peer
                    &&& if !page.unpairing && page.confirming && confirm {
                        &&& action == Some(Action::Unpair)
                        &&& final(self).page@ == PageView::Paired(paired::unpairing(page))
                    } else {
                        &&& action is None
                        &&& final(self).page@ == PageView::Paired(
                            paired::clicked(page, unpair, cancel),
                        )
                    }
                },
            },
    {
        match &mut self.page {
            Page::Pairing => match target {
                Some(target) => {
                    self.page = Page::Connecting(connecting::Page::new());
                    Some(Action::Pair(target))
                },
                None => None,
            },
            Page::Connecting(page) => {
                if !page.render(start_over) {
                    return None;
                }
                self.peer = None;
                self.page = Page::Pairing;
                Some(Action::StartOver)
            },
            Page::Paired(page) => {
                if !page.render(unpair, cancel, confirm) {
                    return None;
                }
                page.unpairing();
                Some(Action::Unpair)
            },
        }
    }

    /// Shows that the connection failed, in these words where it was being made.
    pub fn failed(&mut self, message: &str)
        ensures
            final(self).page@ == failed_page(old(self).page@, message@),
            final(self).peer == old(self).peer,
    {
        match &mut self.page {
            Page::Connecting(page) => page.failed(message),
            Page::Paired(page) => page.disconnected(),
            Page::Pairing => {},
        }
    }
}

} // verus!
