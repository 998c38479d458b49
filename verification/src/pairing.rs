//! The page that scans for a pairing code and shows, on the spot, how the pairing goes.
use vstd::prelude::*;

use crate::relay::link::PeerStatus;
use crate::relay::target::Target;
use crate::theme::Tone;

verus! {

/// How many milliseconds lie between two scans.
pub const QR_SCAN_INTERVAL: u64 = 50;

/// What happened to the relay.
#[derive(Clone, Copy, Debug, PartialEq, Eq, Structural)]
pub enum Event {
    Searching,
    Connecting,
    Peer(PeerStatus),
    Failed,
}

/// What the user asks of the relay.
#[derive(Debug)]
pub enum Action {
    Pair(Target),
    Reset,
}

/// The page.
#[derive(Clone, Copy, Debug)]
pub struct Page {
    /// Whether pictures are scanned for a pairing code.
    pub scanning: bool,
    /// The colour that the status is shown in.
    pub tone: Tone,
    /// The words that the status is shown in.
    pub status: &'static str,
}

/// The page, by what it shows, after an event: whether it scans, the colour and the words.
pub open spec fn page_after(page: Page, event: Event) -> (bool, Tone, Seq<char>) {
    match event {
        Event::Searching => (page.scanning, Tone::Accent, "Searching for Prime…"@),
        Event::Connecting => (page.scanning, Tone::Accent, "Connecting over Bluetooth…"@),
        Event::Peer(PeerStatus::Initiator) => (
            page.scanning,
            Tone::Accent,
            "Establishing a secure QLv2 session…"@,
        ),
        Event::Peer(PeerStatus::Connected) => (
            page.scanning,
            Tone::Positive,
            "Prime is securely paired."@,
        ),
        Event::Peer(PeerStatus::Disconnected | PeerStatus::Unpaired) | Event::Failed => (
            true,
            Tone::Negative,
            "Pairing failed. Show the QR code to try again."@,
        ),
    }
}

impl Page {
    /// The page as it is opened.
    pub fn new() -> (page: Self)
        ensures
            page.scanning,
            page.tone == Tone::Accent,
            page.status@ == "Looking for a pairing QR code…"@,
    {
        Page {
            scanning: true,
            tone: Tone::Accent,
            status: "Looking for a pairing QR code…",
        }
    }

    /// Shows what happened to the relay.
    pub fn input(&mut self, event: Event)
        ensures
            (final(self).scanning, final(self).tone, final(self).status@) == page_after(
                *old(self),
                event,
            ),
    {
        match event {
            Event::Searching => {
                self.tone = Tone::Accent;
                self.status = "Searching for Prime…";
            },
            Event::Connecting => {
                self.tone = Tone::Accent;
                self.status = "Connecting over Bluetooth…";
            },
            Event::Peer(PeerStatus::Initiator) => {
                self.tone = Tone::Accent;
                self.status = "Establishing a secure QLv2 session…";
            },
            Event::Peer(PeerStatus::Connected) => {
                self.tone = Tone::Positive;
                self.status = "Prime is securely paired.";
            },
            Event::Peer(PeerStatus::Disconnected | PeerStatus::Unpaired) | Event::Failed => {
                self.scanning = true;
                self.tone = Tone::Negative;
                self.status = "Pairing failed. Show the QR code to try again.";
            },
        }
    }

    /// Whether the next picture is scanned, given whether a scan is due.
    pub fn scans(&self, due: bool) -> (scans: bool)
        ensures
            scans == (self.scanning && due),
    {
        self.scanning && due
    }

    /// What comes of a Passport whose code is on a picture, if any, and of a reset.
    pub open spec fn renders(
        self,
        target: Option<Target>,
        reset: bool,
        after: Self,
        action: Option<Action>,
    ) -> bool {
        if reset {
            &&& action == Some(Action::Reset)
            &&& after.scanning
            &&& after.tone == Tone::Accent
            &&& after.status@ == "Looking for a pairing QR code…"@
        } else {
            match target {
                Some(target) => {
                    &&& action == Some(Action::Pair(target))
                    &&& !after.scanning
                    &&& after.tone == Tone::Accent
                    &&& after.status@ == "QR code found. Connecting to Prime…"@
                },
                None => action is None && after == self,
            }
        }
    }

    /// Takes the Passport whose code is on a picture, if any, and what the user asks for: a
    /// reset takes precedence over a Passport that was found.
    pub fn render(&mut self, target: Option<Target>, reset: bool) -> (action: Option<Action>)
        ensures
            old(self).renders(target, reset, *final(self), action),
            action == if reset {
                Some(Action::Reset)
            } else {
                match target {
                    Some(target) => Some(Action::Pair(target)),
                    None => None,
                }
            },
            reset ==> {
                &&& final(self).scanning
                &&& final(self).tone == Tone::Accent
                &&& final(self).status@ == "Looking for a pairing QR code…"@
            },
            !reset && target is Some ==> {
                &&& !final(self).scanning
                &&& final(self).tone == Tone::Accent
                &&& final(self).status@ == "QR code found. Connecting to Prime…"@
            },
            !reset && target is None ==> *final(self) == *old(self),
    {
        if target.is_some() {
            self.scanning = false;
            self.tone = Tone::Accent;
            self.status = "QR code found. Connecting to Prime…";
        }
        if reset {
            self.scanning = true;
            self.tone = Tone::Accent;
            self.status = "Looking for a pairing QR code…";
            return Some(Action::Reset);
        }
        match target {
            Some(target) => Some(Action::Pair(target)),
            None => None,
        }
    }
}

} // verus!
