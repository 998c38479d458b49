//! The page of a Passport that is paired, which also shows that it is being unpaired.
use vstd::prelude::*;

use crate::page::paired::{is_rate, rate};
use crate::pages::PeerName;
use crate::theme::Tone;

verus! {

/// The page.
#[derive(Debug)]
pub struct Page {
    pub status: String,
    pub description: String,
    pub device: String,
    pub identity: String,
    pub receive_rate: String,
    pub send_rate: String,
    pub unpair_label: String,
    pub connected: bool,
    /// The user asked to unpair and is asked whether that is meant.
    pub confirming: bool,
    /// The Passport is being unpaired.
    pub unpairing: bool,
}

/// The page by what it shows.
#[verifier::ext_equal]
pub struct PairedView {
    pub status: Seq<char>,
    pub description: Seq<char>,
    pub device: Seq<char>,
    pub identity: Seq<char>,
    pub receive: Seq<char>,
    pub send: Seq<char>,
    pub unpair_label: Seq<char>,
    pub connected: bool,
    pub confirming: bool,
    pub unpairing: bool,
}

impl View for Page {
    type V = PairedView;

    open spec fn view(&self) -> PairedView {
        PairedView {
            status: self.status@,
            description: self.description@,
            device: self.device@,
            identity: self.identity@,
            receive: self.receive_rate@,
            send: self.send_rate@,
            unpair_label: self.unpair_label@,
            connected: self.connected,
            confirming: self.confirming,
            unpairing: self.unpairing,
        }
    }
}

/// The page as it is opened for a Passport.
pub open spec fn opened(peer: PeerName) -> PairedView {
    PairedView {
        status: "Passport is connected"@,
        description: "The encrypted relay is ready for desktop services."@,
        device: peer.name@,
        identity: peer.qid@,
        receive: "0 B/s"@,
        send: "0 B/s"@,
        unpair_label: "Unpair Passport"@,
        connected: true,
        confirming: false,
        unpairing: false,
    }
}

/// The page after the Passport went away.
pub open spec fn without_peer(page: PairedView) -> PairedView {
    PairedView {
        status: "Passport is disconnected"@,
        description: "The secure session ended. Pair again to reconnect."@,
        unpair_label: "Unpair and pair again"@,
        connected: false,
        ..page
    }
}

/// The page while the Passport is being unpaired.
pub open spec fn unpairing(page: PairedView) -> PairedView {
    PairedView {
        status: "Clearing the pairing…"@,
        description: "Passport will be forgotten before pairing again."@,
        confirming: false,
        unpairing: true,
        ..page
    }
}

/// The page after clicks that do not unpair the Passport.
pub open spec fn clicked(page: PairedView, unpair: bool, cancel: bool) -> PairedView {
    if page.unpairing {
        page
    } else {
        PairedView {
            confirming: if page.confirming {
                !cancel
            } else {
                unpair
            },
            ..page
        }
    }
}

impl Page {
    /// The page as it is opened for a Passport.
    pub fn new(peer: PeerName) -> (page: Self)
        ensures
            page@ == opened(peer),
    {
        Page {
            status: "Passport is connected".to_owned(),
            description: "The encrypted relay is ready for desktop services.".to_owned(),
            device: peer.name,
            identity: peer.qid,
            receive_rate: "0 B/s".to_owned(),
            send_rate: "0 B/s".to_owned(),
            unpair_label: "Unpair Passport".to_owned(),
            connected: true,
            confirming: false,
            unpairing: false,
        }
    }

    /// Shows that the Passport is gone.
    pub fn disconnected(&mut self)
        ensures
            final(self)@ == without_peer(old(self)@),
    {
        self.status = "Passport is disconnected".to_owned();
        self.description = "The secure session ended. Pair again to reconnect.".to_owned();
        self.unpair_label = "Unpair and pair again".to_owned();
        self.connected = false;
    }

    /// Shows that the Passport is being unpaired.
    pub fn unpairing(&mut self)
        ensures
            final(self)@ == unpairing(old(self)@),
    {
        self.status = "Clearing the pairing…".to_owned();
        self.description = "Passport will be forgotten before pairing again.".to_owned();
        self.confirming = false;
        self.unpairing = true;
    }

    /// Shows other rates. `tenths` writes a number, divided by another one, with one decimal.
    pub fn rates<F>(&mut self, receive: u64, send: u64, tenths: F) where
        F: Fn(u64, u64) -> String,

        requires
            forall|n: u64, unit: u64| call_requires(tenths, (n, unit)),
        ensures
            is_rate(receive, tenths, final(self)@.receive),
            is_rate(send, tenths, final(self)@.send),
            final(self)@ == (PairedView {
                receive: final(self)@.receive,
                send: final(self)@.send,
                ..old(self)@
            }),
    {
        self.receive_rate = rate(receive, &tenths);
        self.send_rate = rate(send, &tenths);
    }

    /// The colour that the status is shown in.
    pub fn tone(&self) -> (tone: Tone)
        ensures
            tone == if self@.unpairing {
                Tone::Accent
            } else if self@.connected {
                Tone::Positive
            } else {
                Tone::Negative
            },
    {
        if self.unpairing {
            Tone::Accent
        } else if self.connected {
            Tone::Positive
        } else {
            Tone::Negative
        }
    }

    /// Does what the user asks for, and tells whether the Passport is to be unpaired.
    pub fn render(&mut self, unpair: bool, cancel: bool, confirm: bool) -> (unpaired: bool)
        ensures
            unpaired == (!old(self)@.unpairing && old(self)@.confirming && confirm),
            final(self)@ == clicked(old(self)@, unpair, cancel),
    {
        if self.unpairing {
            false
        } else if self.confirming {
            if cancel {
                self.confirming = false;
            }
            confirm
        } else {
            if unpair {
                self.confirming = true;
            }
            false
        }
    }
}

} // verus!
