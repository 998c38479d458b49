//! The desktop's pages and the way from one to the next.
use vstd::prelude::*;

pub mod connecting;
pub mod paired;
pub mod pairing;

use crate::relay::link::{Phase, State};
use crate::relay::target::Target;

verus! {

/// The page that is shown.
#[derive(Debug)]
pub enum Page {
    Pairing(pairing::Page),
    Connecting(connecting::Page),
    Paired(paired::Page),
}

/// A page by what it shows.
#[verifier::ext_equal]
pub enum PageView {
    Pairing(pairing::Page),
    Connecting(connecting::Page),
    Paired(paired::PairedView),
}

impl View for Page {
    type V = PageView;

    open spec fn view(&self) -> PageView {
        match self {
            Page::Pairing(page) => PageView::Pairing(*page),
            Page::Connecting(page) => PageView::Connecting(*page),
            Page::Paired(page) => PageView::Paired(page@),
        }
    }
}

/// What the desktop shows, and the phase of the relay that it knows of.
#[derive(Debug)]
pub struct App {
    pub phase: Phase,
    pub page: Page,
}

/// What the relay is told by a page.
#[derive(Debug)]
pub enum Command {
    Pair(Target),
    Unpair,
}

/// What the user did on the page since it was shown last.
#[derive(Clone, Copy, Debug, PartialEq, Eq, Structural)]
pub struct Clicks {
    /// The pairing is to start.
    pub start: bool,
    /// The failed connection is to be started over.
    pub start_over: bool,
    /// The Passport is to be unpaired.
    pub unpair: bool,
    /// It is not to be unpaired after all.
    pub cancel: bool,
    /// It is really to be unpaired.
    pub confirm: bool,
}

/// The status that a phase shows on the connecting page.
pub open spec fn status_of(phase: Phase) -> Option<connecting::Status> {
    match phase {
        Phase::Searching => Some(connecting::Status::Searching),
        Phase::Connecting => Some(connecting::Status::Connecting),
        Phase::BluetoothConnected => Some(connecting::Status::BluetoothConnected),
        Phase::SecureSession => Some(connecting::Status::SecureSession),
        Phase::SecureConnected => Some(connecting::Status::SecureConnected),
        Phase::Provisioning => Some(connecting::Status::Provisioning),
        Phase::Unpaired | Phase::Ready | Phase::Failed => None,
    }
}

/// The page after a failure.
pub open spec fn failed_page(page: PageView) -> PageView {
    match page {
        PageView::Connecting(page) => PageView::Connecting(
            page.with_status(connecting::Status::Failed),
        ),
        PageView::Paired(page) => PageView::Paired(
            paired::PairedView { connected: false, ..page },
        ),
        PageView::Pairing(page) => PageView::Pairing(page),
    }
}

/// The page after the relay came into another phase.
pub open spec fn turned(page: PageView, state: State) -> PageView {
    match state.phase {
        Phase::Unpaired => if page is Pairing {
            page
        } else {
            PageView::Pairing(pairing::fresh())
        },
        Phase::Ready => match page {
            PageView::Connecting(connecting) => if connecting.status == connecting::Status::Failed {
                page
            } else {
                match state.peer {
                    Some(peer) => PageView::Paired(paired::opened(peer)),
                    None => failed_page(page),
                }
            },
            _ => page,
        },
        Phase::Failed => failed_page(page),
        _ => match page {
            PageView::Connecting(connecting) => PageView::Connecting(
                connecting.with_status(status_of(state.phase)->0),
            ),
            _ => page,
        },
    }
}

impl App {
    /// What is shown at the start.
    pub fn new() -> (app: Self)
        ensures
            app.phase == Phase::Unpaired,
            app.page@ == PageView::Pairing(pairing::fresh()),
    {
        App { phase: Phase::Unpaired, page: Page::Pairing(pairing::Page::new()) }
    }

    /// What comes of bringing the page up to date with the relay.
    pub open spec fn updates<F>(self, state: State, tenths: F, after: Self, camera: bool) -> bool
        where F: Fn(u64, u64) -> String
    {
        let page = if self.phase == state.phase {
            self.page@
        } else {
            turned(self.page@, state)
        };
        &&& after.phase == state.phase
        &&& camera == (self.phase != state.phase && state.phase == Phase::Unpaired && !(
        self.page@ is Pairing))
        &&& match page {
            PageView::Paired(paired) => {
                &&& after.page@ matches PageView::Paired(now)
                &&& now == (paired::PairedView { receive: now.receive, send: now.send, ..paired })
                &&& paired::is_rate(state.rx_bytes_per_second, tenths, now.receive)
                &&& paired::is_rate(state.tx_bytes_per_second, tenths, now.send)
            },
            _ => after.page@ == page,
        }
    }

    /// What comes of what the user did on the page.
    pub open spec fn renders(self, clicks: Clicks, after: Self, command: Option<Command>) -> bool {
        &&& after.phase == self.phase
        &&& match self.page@ {
            PageView::Pairing(page) => match page.target {
                Some(target) if clicks.start => {
                    &&& command == Some(Command::Pair(target))
                    &&& after.page@ == PageView::Connecting(connecting::fresh())
                },
                _ => command is None && after.page@ == self.page@,
            },
            PageView::Connecting(page) => if page.status == connecting::Status::Failed
                && clicks.start_over {
                &&& command == Some(Command::Unpair)
                &&& after.page@ == PageView::Pairing(pairing::fresh())
            } else {
                command is None && after.page@ == self.page@
            },
            PageView::Paired(page) => if page.confirming && clicks.confirm {
                &&& command == Some(Command::Unpair)
                &&& after.page@ == PageView::Pairing(pairing::fresh())
            } else {
                &&& command is None
                &&& after.page@ == PageView::Paired(
                    paired::PairedView {
                        confirming: if page.confirming {
                            !clicks.cancel
                        } else {
                            clicks.unpair
                        },
                        ..page
                    },
                )
            },
        }
    }

    /// Brings the page up to date with the relay, and tells whether a new pairing page is
    /// shown, for which a camera has to be started. `tenths` writes a number, divided by
    /// another one, with one decimal.
    pub fn update<F>(&mut self, state: &State, tenths: F) -> (camera: bool) where
        F: Fn(u64, u64) -> String,

        requires
            forall|n: u64, unit: u64| call_requires(tenths, (n, unit)),
        ensures
            old(self).updates(*state, tenths, *final(self), camera),
            final(self).phase == state.phase,
            camera == (old(self).phase != state.phase && state.phase == Phase::Unpaired && !(old(
                self,
            ).page@ is Pairing)),
            ({
                let page = if old(self).phase == state.phase {
                    old(self).page@
                } else {
                    turned(old(self).page@, *state)
                };
                match page {
                    PageView::Paired(paired) => {
                        &&& final(self).page@ matches PageView::Paired(now)
                        &&& now == (paired::PairedView {
                            receive: now.receive,
                            send: now.send,
                            ..paired
                        })
                        &&& paired::is_rate(state.rx_bytes_per_second, tenths, now.receive)
                        &&& paired::is_rate(state.tx_bytes_per_second, tenths, now.send)
                    },
                    _ => final(self).page@ == page,
                }
            }),
    {
        let mut camera = false;
        if self.phase != state.phase {
            self.phase = state.phase;
            camera = self.turn(state);
        }
        if let Page::Paired(page) = &mut self.page {
            page.rates(state.rx_bytes_per_second, state.tx_bytes_per_second, tenths);
        }
        camera
    }

    fn turn(&mut self, state: &State) -> (camera: bool)
        ensures
            final(self).phase == old(self).phase,
            final(self).page@ == turned(old(self).page@, *state),
            camera == (state.phase == Phase::Unpaired && !(old(self).page@ is Pairing)),
    {
        match state.phase {
            Phase::Unpaired => {
                if !matches!(&self.page, Page::Pairing(_)) {
                    self.page = Page::Pairing(pairing::Page::new());
                    return true;
                }
            },
            Phase::Searching => self.show(connecting::Status::Searching),
            Phase::Connecting => self.show(connecting::Status::Connecting),
            Phase::BluetoothConnected => self.show(connecting::Status::BluetoothConnected),
            Phase::SecureSession => self.show(connecting::Status::SecureSession),
            Phase::SecureConnected => self.show(connecting::Status::SecureConnected),
            Phase::Provisioning => self.show(connecting::Status::Provisioning),
            Phase::Ready => {
                let ready = match &self.page {
                    Page::Connecting(page) => page.can_finish(),
                    _ => false,
                };
                if ready {
                    match &state.peer {
                        Some(peer) => {
                            self.page = Page::Paired(paired::Page::new(peer.clone()));
                        },
                        None => self.failed(),
                    }
                }
            },
            Phase::Failed => self.failed(),
        }
        false
    }

    fn show(&mut self, status: connecting::Status)
        ensures
            final(self).phase == old(self).phase,
            final(self).page@ == match old(self).page@ {
                PageView::Connecting(page) => PageView::Connecting(page.with_status(status)),
                page => page,
            },
    {
        if let Page::Connecting(page) = &mut self.page {
            page.set_status(status);
        }
    }

    /// Shows that the connection failed.
    pub fn failed(&mut self)
        ensures
            final(self).phase == old(self).phase,
            final(self).page@ == failed_page(old(self).page@),
    {
        match &mut self.page {
            Page::Connecting(page) => page.set_status(connecting::Status::Failed),
            Page::Paired(page) => page.disconnected(),
            Page::Pairing(_) => {},
        }
    }

    /// Does what the user asks for on the page, and gives what the relay is told. Where the
    /// relay is told to unpair, a new pairing page is shown, for which a camera has to be
    /// started.
    pub fn render_page(&mut self, clicks: Clicks) -> (command: Option<Command>)
        ensures
            old(self).renders(clicks, *final(self), command),
            final(self).phase == old(self).phase,
            match old(self).page@ {
                PageView::Pairing(page) => match page.target {
                    Some(target) if clicks.start => {
                        &&& command == Some(Command::Pair(target))
                        &&& final(self).page@ == PageView::Connecting(connecting::fresh())
                    },
                    _ => command is None && final(self).page@ == old(self).page@,
                },
                PageView::Connecting(page) => if page.status == connecting::Status::Failed
                    && clicks.start_over {
                    &&& command == Some(Command::Unpair)
                    &&& final(self).page@ == PageView::Pairing(pairing::fresh())
                } else {
                    command is None && final(self).page@ == old(self).page@
                },
                PageView::Paired(page) => if page.confirming && clicks.confirm {
                    &&& command == Some(Command::Unpair)
                    &&& final(self).page@ == PageView::Pairing(pairing::fresh())
                } else {
                    &&& command is None
                    &&& final(self).page@ == PageView::Paired(
                        paired::PairedView {
                            confirming: if page.confirming {
                                !clicks.cancel
                            } else {
                                clicks.unpair
                            },
                            ..page
                        },
                    )
                },
            },
    {
        let unpair = match &mut self.page {
            Page::Pairing(page) => {
                match page.render(clicks.start) {
                    Some(target) => {
                        self.page = Page::Connecting(connecting::Page::new());
                        return Some(Command::Pair(target));
                    },
                    None => return None,
                }
            },
            Page::Connecting(page) => page.render(clicks.start_over),
            Page::Paired(page) => page.render(clicks.unpair, clicks.cancel, clicks.confirm),
        };
        if !unpair {
            return None;
        }
        self.page = Page::Pairing(pairing::Page::new());
        Some(Command::Unpair)
    }
}

} // verus!
