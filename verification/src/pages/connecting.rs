//! The page that shows the events of a connection as they come.
use vstd::prelude::*;

use crate::theme::Tone;

verus! {

/// The page.
#[derive(Debug)]
pub struct Page {
    pub status: String,
    /// How many of the four steps are done.
    pub completed: u8,
    pub failed: bool,
}

/// The page by what it shows.
#[verifier::ext_equal]
pub struct ConnectingView {
    pub status: Seq<char>,
    pub completed: u8,
    pub failed: bool,
}

impl View for Page {
    type V = ConnectingView;

    open spec fn view(&self) -> ConnectingView {
        ConnectingView { status: self.status@, completed: self.completed, failed: self.failed }
    }
}

/// The page as it is opened.
pub open spec fn fresh() -> ConnectingView {
    ConnectingView {
        status: "QR code verified. Preparing connection…"@,
        completed: 1,
        failed: false,
    }
}

/// A step as it is shown.
#[derive(Clone, Copy, Debug)]
pub struct Step {
    /// The colour of the step's mark and ground.
    pub tone: Tone,
    /// Whether the step's border has that colour too.
    pub outlined: bool,
    /// The colour of its words.
    pub text: Tone,
}

/// The tone of a step.
pub open spec fn tone_of(page: ConnectingView, step: int) -> Tone {
    if step <= page.completed {
        Tone::Positive
    } else if step != page.completed + 1 {
        Tone::Muted
    } else if page.failed {
        Tone::Negative
    } else {
        Tone::Accent
    }
}

impl Page {
    /// The page as it is opened.
    pub fn new() -> (page: Self)
        ensures
            page@ == fresh(),
    {
        Page {
            status: "QR code verified. Preparing connection…".to_owned(),
            completed: 1,
            failed: false,
        }
    }

    /// Shows that the Passport is searched for.
    pub fn searching(&mut self)
        ensures
            final(self)@ == (ConnectingView {
                status: "Looking for Prime over Bluetooth…"@,
                ..old(self)@
            }),
    {
        self.status = "Looking for Prime over Bluetooth…".to_owned();
    }

    /// Shows that the Passport was found.
    pub fn connecting(&mut self)
        ensures
            final(self)@ == (ConnectingView {
                status: "Prime found. Opening Bluetooth connection…"@,
                ..old(self)@
            }),
    {
        self.status = "Prime found. Opening Bluetooth connection…".to_owned();
    }

    /// Shows that the Passport is linked.
    pub fn bluetooth_connected(&mut self)
        ensures
            final(self)@ == (ConnectingView {
                status: "Bluetooth connected. Starting secure session…"@,
                completed: 2,
                ..old(self)@
            }),
    {
        self.completed = 2;
        self.status = "Bluetooth connected. Starting secure session…".to_owned();
    }

    /// Shows that the session is being opened.
    pub fn secure_session(&mut self)
        ensures
            final(self)@ == (ConnectingView {
                status: "Establishing the encrypted QLv2 session…"@,
                completed: 2,
                ..old(self)@
            }),
    {
        self.completed = 2;
        self.status = "Establishing the encrypted QLv2 session…".to_owned();
    }

    /// Shows that the session is open.
    pub fn secure_connected(&mut self)
        ensures
            final(self)@ == (ConnectingView {
                status: "Secure session established."@,
                completed: 3,
                ..old(self)@
            }),
    {
        self.completed = 3;
        self.status = "Secure session established.".to_owned();
    }

    /// Shows that the Passport is provisioned.
    pub fn provisioning(&mut self)
        ensures
            final(self)@ == (ConnectingView {
                status: "Installing router and Foundation services…"@,
                completed: 3,
                ..old(self)@
            }),
    {
        self.completed = 3;
        self.status = "Installing router and Foundation services…".to_owned();
    }

    /// Shows that the connection failed.
    pub fn failed(&mut self, message: &str)
        ensures
            final(self)@ == (ConnectingView { status: message@, failed: true, ..old(self)@ }),
    {
        self.status = message.to_owned();
        self.failed = true;
    }

    /// Whether the connection can still come to its end.
    pub fn can_finish(&self) -> (can: bool)
        ensures
            can == !self@.failed,
    {
        !self.failed
    }

    /// One of the four steps as it is shown.
    pub fn render_step(&self, step: u8) -> (shown: Step)
        requires
            self@.completed < u8::MAX,
        ensures
            shown.tone == tone_of(self@, step as int),
            shown.outlined == (shown.tone != Tone::Muted),
            shown.text == if shown.tone == Tone::Muted {
                Tone::Muted
            } else {
                Tone::Text
            },
    {
        let completed = step <= self.completed;
        let active = step == self.completed + 1;
        let tone = if completed {
            Tone::Positive
        } else if active && self.failed {
            Tone::Negative
        } else if active {
            Tone::Accent
        } else {
            Tone::Muted
        };
        Step {
            tone,
            outlined: active || completed,
            text: if completed || active {
                Tone::Text
            } else {
                Tone::Muted
            },
        }
    }

    /// Whether the user asks to start over, which is offered after a failure only.
    pub fn render(&self, start_over: bool) -> (starts: bool)
        ensures
            starts == (self@.failed && start_over),
    {
        self.failed && start_over
    }
}

} // verus!
