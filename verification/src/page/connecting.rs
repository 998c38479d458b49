//! The page that shows how far a connection has come.
use vstd::prelude::*;

use crate::theme::Tone;

verus! {

/// How far the connection is.
#[derive(Clone, Copy, Debug, PartialEq, Eq, Structural)]
pub enum Status {
    Preparing,
    Searching,
    Connecting,
    BluetoothConnected,
    SecureSession,
    SecureConnected,
    Provisioning,
    Failed,
}

/// The page.
#[derive(Clone, Copy, Debug)]
pub struct Page {
    pub status: Status,
    /// How many of the four steps are done.
    pub completed: u8,
}

/// The page as it is opened.
pub open spec fn fresh() -> Page {
    Page { status: Status::Preparing, completed: 1 }
}

/// How many steps are done in each status; a failure leaves what was done.
pub open spec fn completed_in(status: Status) -> Option<u8> {
    match status {
        Status::Preparing | Status::Searching | Status::Connecting => Some(1),
        Status::BluetoothConnected | Status::SecureSession => Some(2),
        Status::SecureConnected | Status::Provisioning => Some(3),
        Status::Failed => None,
    }
}

/// The words that each status is shown with.
pub open spec fn message_of(status: Status) -> Seq<char> {
    match status {
        Status::Preparing => "QR code verified. Preparing connection…"@,
        Status::Searching => "Looking for Passport over Bluetooth…"@,
        Status::Connecting => "Passport found. Opening Bluetooth connection…"@,
        Status::BluetoothConnected => "Bluetooth connected. Starting secure session…"@,
        Status::SecureSession => "Establishing the encrypted QLv2 session…"@,
        Status::SecureConnected => "Secure session established."@,
        Status::Provisioning => "Installing router and Foundation services…"@,
        Status::Failed => "Connection failed. Check the logs and try again."@,
    }
}

/// The words of each of the four steps.
pub open spec fn label_of(step: int) -> Seq<char> {
    if step == 1 {
        "Pairing QR code verified"@
    } else if step == 2 {
        "Bluetooth connection"@
    } else if step == 3 {
        "Secure QLv2 session"@
    } else {
        "Desktop services"@
    }
}

/// A step as it is shown.
#[derive(Clone, Copy, Debug)]
pub struct Step {
    pub label: &'static str,
    pub mark: &'static str,
    pub tone: Tone,
}

impl Page {
    /// The number of steps that are done is that of the status, or of the last one before
    /// the failure.
    pub open spec fn well_formed(self) -> bool {
        &&& 1 <= self.completed <= 3
        &&& completed_in(self.status) matches Some(completed) ==> self.completed == completed
    }

    /// The page in another status.
    pub open spec fn with_status(self, status: Status) -> Page {
        Page {
            status,
            completed: match completed_in(status) {
                Some(completed) => completed,
                None => self.completed,
            },
        }
    }

    /// The page as it is opened.
    pub fn new() -> (page: Self)
        ensures
            page == fresh(),
            page.well_formed(),
    {
        Page { status: Status::Preparing, completed: 1 }
    }

    /// Shows another status.
    pub fn set_status(&mut self, status: Status)
        ensures
            *final(self) == old(self).with_status(status),
            old(self).well_formed() ==> final(self).well_formed(),
    {
        match status {
            Status::Preparing | Status::Searching | Status::Connecting => {
                self.completed = 1;
            },
            Status::BluetoothConnected | Status::SecureSession => {
                self.completed = 2;
            },
            Status::SecureConnected | Status::Provisioning => {
                self.completed = 3;
            },
            Status::Failed => {},
        }
        self.status = status;
    }

    /// Whether the connection can still come to its end.
    pub fn can_finish(&self) -> (can: bool)
        ensures
            can == (self.status != Status::Failed),
    {
        self.status != Status::Failed
    }

    /// The words that the status is shown with.
    pub fn message(&self) -> (message: &'static str)
        ensures
            message@ == message_of(self.status),
    {
        match self.status {
            Status::Preparing => "QR code verified. Preparing connection…",
            Status::Searching => "Looking for Passport over Bluetooth…",
            Status::Connecting => "Passport found. Opening Bluetooth connection…",
            Status::BluetoothConnected => "Bluetooth connected. Starting secure session…",
            Status::SecureSession => "Establishing the encrypted QLv2 session…",
            Status::SecureConnected => "Secure session established.",
            Status::Provisioning => "Installing router and Foundation services…",
            Status::Failed => "Connection failed. Check the logs and try again.",
        }
    }

    /// The colour that the status is shown in.
    pub fn tone(&self) -> (tone: Tone)
        ensures
            tone == if self.status == Status::Failed {
                Tone::Negative
            } else {
                Tone::Text
            },
    {
        if self.can_finish() {
            Tone::Text
        } else {
            Tone::Negative
        }
    }

    /// The tone of a step: what is done is positive; the step behind it is the one that is
    /// going on or that failed.
    pub open spec fn tone_of(self, step: int) -> Tone {
        if step <= self.completed {
            Tone::Positive
        } else if step != self.completed + 1 {
            Tone::Muted
        } else if self.status == Status::Failed {
            Tone::Negative
        } else {
            Tone::Accent
        }
    }

    /// One of the four steps as it is shown.
    pub fn step(&self, step: u8) -> (shown: Step)
        requires
            1 <= step <= 4,
            self.well_formed(),
        ensures
            shown.label@ == label_of(step as int),
            shown.mark@ == if step <= self.completed {
                "●"@
            } else {
                "○"@
            },
            shown.tone == self.tone_of(step as int),
    {
        let failed = self.status == Status::Failed;
        let done = step <= self.completed;
        let active = step == self.completed + 1;
        let tone = if done {
            Tone::Positive
        } else if active && failed {
            Tone::Negative
        } else if active {
            Tone::Accent
        } else {
            Tone::Muted
        };
        let label = if step == 1 {
            "Pairing QR code verified"
        } else if step == 2 {
            "Bluetooth connection"
        } else if step == 3 {
            "Secure QLv2 session"
        } else {
            "Desktop services"
        };
        Step {
            label,
            mark: if done {
                "●"
            } else {
                "○"
            },
            tone,
        }
    }

    /// Whether the user asks to start over, which is offered after a failure only.
    pub fn render(&self, start_over: bool) -> (starts: bool)
        ensures
            starts == (self.status == Status::Failed && start_over),
    {
        self.status == Status::Failed && start_over
    }
}

/// A failure shows at the step behind those that were done when it came, and exactly one
/// step is shown as going on or failed.
pub proof fn law_failure_keeps_progress(page: Page, step: int)
    requires
        page.well_formed(),
        1 <= step <= 4,
    ensures
        ({
            let failed = page.with_status(Status::Failed);
            &&& failed.completed == page.completed
            &&& failed.tone_of(step) == Tone::Negative <==> step == page.completed + 1
            &&& failed.tone_of(step) == Tone::Positive <==> step <= page.completed
        }),
        page.tone_of(step) == Tone::Accent || page.tone_of(step) == Tone::Negative <==> step
            == page.completed + 1,
{
}

} // verus!
