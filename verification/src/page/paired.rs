//! The page of a Passport that is paired.
use vstd::prelude::*;

use crate::relay::link::Peer;
use crate::text::{decimal, decimal_text};
use crate::theme::Tone;

verus! {

/// Whether the Passport is there.
#[derive(Clone, Copy, Debug, PartialEq, Eq, Structural)]
pub enum Status {
    Connected,
    Disconnected,
}

/// The page.
#[derive(Debug)]
pub struct Page {
    pub status: Status,
    pub passport_name: String,
    pub passport_qid: String,
    pub desktop_qid: String,
    pub receive_rate: String,
    pub send_rate: String,
    /// The user asked to unpair and is asked whether that is meant.
    pub confirming: bool,
}

/// The page by what it shows.
#[verifier::ext_equal]
pub struct PairedView {
    pub connected: bool,
    pub name: Seq<char>,
    pub passport_qid: Seq<char>,
    pub desktop_qid: Seq<char>,
    pub receive: Seq<char>,
    pub send: Seq<char>,
    pub confirming: bool,
}

impl View for Page {
    type V = PairedView;

    open spec fn view(&self) -> PairedView {
        PairedView {
            connected: self.status == Status::Connected,
            name: self.passport_name@,
            passport_qid: self.passport_qid@,
            desktop_qid: self.desktop_qid@,
            receive: self.receive_rate@,
            send: self.send_rate@,
            confirming: self.confirming,
        }
    }
}

/// The page as it is opened for a peer.
pub open spec fn opened(peer: Peer) -> PairedView {
    PairedView {
        connected: true,
        name: peer.name@,
        passport_qid: peer.passport_qid@,
        desktop_qid: peer.desktop_qid@,
        receive: "0 B/s"@,
        send: "0 B/s"@,
        confirming: false,
    }
}

/// A rate as it is written: in bytes below a thousand, in kilobytes below a million, in
/// megabytes from there on. `tenths` writes a number, divided by another one, with one
/// decimal.
pub open spec fn is_rate<F>(bytes_per_second: u64, tenths: F, text: Seq<char>) -> bool where
    F: Fn(u64, u64) -> String,
 {
    if bytes_per_second < 1_000 {
        text == decimal_text(bytes_per_second as nat) + " B/s"@
    } else if bytes_per_second < 1_000_000 {
        exists|number: String| #[trigger]
            call_ensures(tenths, (bytes_per_second, 1_000u64), number) && text == number@
                + " KB/s"@
    } else {
        exists|number: String| #[trigger]
            call_ensures(tenths, (bytes_per_second, 1_000_000u64), number) && text == number@
                + " MB/s"@
    }
}

/// Writes a rate.
pub fn rate<F>(bytes_per_second: u64, tenths: &F) -> (text: String) where
    F: Fn(u64, u64) -> String,

    requires
        forall|n: u64, unit: u64| call_requires(*tenths, (n, unit)),
    ensures
        is_rate(bytes_per_second, *tenths, text@),
{
    if bytes_per_second < 1_000 {
        decimal(bytes_per_second).concat(" B/s")
    } else if bytes_per_second < 1_000_000 {
        let number = tenths(bytes_per_second, 1_000u64);
        let ghost seen = number;
        assert(call_ensures(*tenths, (bytes_per_second, 1_000u64), seen));
        number.concat(" KB/s")
    } else {
        let number = tenths(bytes_per_second, 1_000_000u64);
        let ghost seen = number;
        assert(call_ensures(*tenths, (bytes_per_second, 1_000_000u64), seen));
        number.concat(" MB/s")
    }
}

impl Page {
    /// The page as it is opened for a peer.
    pub fn new(peer: Peer) -> (page: Self)
        ensures
            page@ == opened(peer),
    {
        Page {
            status: Status::Connected,
            passport_name: peer.name,
            passport_qid: peer.passport_qid,
            desktop_qid: peer.desktop_qid,
            receive_rate: "0 B/s".to_owned(),
            send_rate: "0 B/s".to_owned(),
            confirming: false,
        }
    }

    /// Shows that the Passport is gone.
    pub fn disconnected(&mut self)
        ensures
            final(self)@ == (PairedView { connected: false, ..old(self)@ }),
    {
        self.status = Status::Disconnected;
    }

    /// Shows other rates. `tenths` writes a number, divided by another one, with one decimal.
    pub fn rates<F>(&mut self, receive: u64, send: u64, tenths: F) where
        F: Fn(u64, u64) -> String,

        requires
            forall|n: u64, unit: u64| call_requires(tenths, (n, unit)),
        ensures
            is_rate(receive, tenths, final(self)@.receive),
            is_rate(send, tenths, final(self)@.send),
            final(self)@ == (PairedView {
                receive: final(self)@.receive,
                send: final(self)@.send,
                ..old(self)@
            }),
    {
        self.receive_rate = rate(receive, &tenths);
        self.send_rate = rate(send, &tenths);
    }

    /// The headline, the line below it and their colour.
    pub fn summary(&self) -> (summary: (&'static str, &'static str, Tone))
        ensures
            self@.connected ==> summary.0@ == "Passport is connected"@ && summary.1@
                == "The encrypted relay is ready for desktop services."@ && summary.2
                == Tone::Positive,
            !self@.connected ==> summary.0@ == "Passport is disconnected"@ && summary.1@
                == "The secure session ended. Pair again to reconnect."@ && summary.2
                == Tone::Negative,
    {
        match self.status {
            Status::Connected => (
                "Passport is connected",
                "The encrypted relay is ready for desktop services.",
                Tone::Positive,
            ),
            Status::Disconnected => (
                "Passport is disconnected",
                "The secure session ended. Pair again to reconnect.",
                Tone::Negative,
            ),
        }
    }

    /// The words on the button that asks to unpair.
    pub fn unpair_label(&self) -> (label: &'static str)
        ensures
            label@ == if self@.connected {
                "Unpair Passport"@
            } else {
                "Unpair and pair again"@
            },
    {
        if self.status == Status::Disconnected {
            "Unpair and pair again"
        } else {
            "Unpair Passport"
        }
    }

    /// Does what the user asks for, and tells whether the Passport is to be unpaired: the
    /// question whether that is meant stands in between.
    pub fn render(&mut self, unpair: bool, cancel: bool, confirm: bool) -> (unpaired: bool)
        ensures
            unpaired == (old(self)@.confirming && confirm),
            final(self)@ == (PairedView {
                confirming: if old(self)@.confirming {
                    !cancel
                } else {
                    unpair
                },
                ..old(self)@
            }),
    {
        if self.confirming {
            if cancel {
                self.confirming = false;
            }
            confirm
        } else {
            if unpair {
                self.confirming = true;
            }
            false
        }
    }
}

} // verus!
