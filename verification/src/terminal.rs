//! The terminal peer: what it shows, what it asks of its peer and when, and its pairing
//! image.
use vstd::prelude::*;

use crate::external::{hex_encode, hex_text, qr_encode, qr_symbol};
use crate::protocol::record::PeerBundle;
use crate::relay::link::PeerStatus;
use crate::text::{decimal, decimal_text};
use crate::theme::Tone;

verus! {

/// How many pixels a module of the pairing image is wide and high.
pub const MODULE_SIZE: usize = 8;

/// How many light modules surround the pairing image.
pub const QUIET_ZONE: usize = 4;

/// How many tasks are polled before the screen is drawn.
pub const TASK_BATCH: usize = 64;

/// How many inputs are taken before the screen is drawn.
pub const INPUT_BATCH: usize = 32;

/// After how many nanoseconds a pending redraw is due.
pub const REDRAW_DELAY: u64 = 16_000_000;

/// How many bytes of a stream may come before they are read.
pub const RECEIVE_WINDOW: usize = 128 * 1024;

/// What the peer asked of the terminal.
#[derive(Debug)]
pub struct Activity {
    pub echo: String,
    pub download: String,
}

impl Default for Activity {
    fn default() -> (activity: Self)
        ensures
            activity.echo@ == ""@,
            activity.download@ == ""@,
    {
        Activity { echo: "".to_owned(), download: "".to_owned() }
    }
}

impl Clone for Activity {
    fn clone(&self) -> (copy: Self)
        ensures
            copy == *self,
    {
        Activity { echo: self.echo.clone(), download: self.download.clone() }
    }
}

fn joined_text(a: &str, b: &str) -> (text: String)
    ensures
        text@ == a@ + b@,
{
    let text: String = a.to_owned();
    text.concat(b)
}

impl Activity {
    /// Shows the message that the peer had echoed, or why the echo failed.
    pub fn echoed(&mut self, message: &str)
        ensures
            final(self).echo@ == "In: "@ + message@,
            final(self).download == old(self).download,
    {
        self.echo = joined_text("In: ", message);
    }

    /// The words that a download is shown with.
    pub open spec fn served_words(length: u64, outcome: Result<(), String>) -> Seq<char> {
        match outcome {
            Ok(_) => "served "@ + decimal_text(length as nat) + " bytes to Prime"@,
            Err(error) => "download failed: "@ + error@,
        }
    }

    /// Shows what came of a download that was served to the peer.
    pub fn served(&mut self, length: u64, outcome: Result<(), String>)
        ensures
            final(self).echo == old(self).echo,
            final(self).download@ == Self::served_words(length, outcome),
            final(self).download@ == match outcome {
                Ok(_) => "served "@ + decimal_text(length as nat) + " bytes to Prime"@,
                Err(error) => "download failed: "@ + error@,
            },
    {
        self.download = match outcome {
            Ok(_) => {
                let number = decimal(length);
                joined_text("served ", number.as_str()).concat(" bytes to Prime")
            },
            Err(error) => joined_text("download failed: ", error.as_str()),
        };
    }
}

/// What the terminal asks of its peer.
#[derive(Debug)]
pub enum Request {
    /// To echo this message.
    Echo(String),
    /// To send so much, as the user wrote it.
    Download(String),
}

/// What the terminal shows.
#[derive(Debug)]
pub struct App {
    pub router: String,
    pub peer: PeerStatus,
    pub peer_details: Option<PeerBundle>,
    pub router_connected: bool,
    pub echo: String,
    pub download_size: String,
    pub echo_result: String,
    pub download_result: String,
    pub activity: Activity,
    /// A request is under way.
    pub busy: bool,
    /// The peer lets the terminal ask.
    pub permitted: bool,
}

impl App {
    /// The terminal as it starts, while it connects to a router.
    pub fn new(address: &str) -> (app: Self)
        ensures
            app.router@ == "connecting to "@ + address@,
            app.peer == PeerStatus::Disconnected,
            app.peer_details is None,
            !app.router_connected,
            app.echo@ == "hello Prime"@,
            app.download_size@ == "256"@,
            app.echo_result@ == ""@,
            app.download_result@ == ""@,
            app.activity.echo@ == ""@,
            app.activity.download@ == ""@,
            !app.busy,
            !app.permitted,
    {
        App {
            router: joined_text("connecting to ", address),
            peer: PeerStatus::Disconnected,
            peer_details: None,
            router_connected: false,
            echo: "hello Prime".to_owned(),
            download_size: "256".to_owned(),
            echo_result: "".to_owned(),
            download_result: "".to_owned(),
            activity: Activity::default(),
            busy: false,
            permitted: false,
        }
    }

    /// Whether the terminal can ask its peer for something.
    pub open spec fn spec_enabled(self) -> bool {
        self.router_connected && self.peer == PeerStatus::Connected && self.permitted && !self.busy
    }

    /// Whether the terminal can ask its peer for something.
    pub fn enabled(&self) -> (enabled: bool)
        ensures
            enabled == self.spec_enabled(),
    {
        self.router_connected && self.peer == PeerStatus::Connected && self.permitted && !self.busy
    }

    /// The terminal once the session stands so.
    pub open spec fn standing(self, status: PeerStatus) -> App {
        App { peer: status, permitted: false, ..self }
    }

    /// The terminal once the router is reached, which is shown in these words.
    pub open spec fn reached(self, router: String) -> App {
        App { router, router_connected: true, ..self }
    }

    /// The terminal once the router is lost, which is shown in these words.
    pub open spec fn lost(self, router: String) -> App {
        App {
            router,
            router_connected: false,
            permitted: false,
            peer: PeerStatus::Disconnected,
            ..self
        }
    }

    /// The words and the colour that the session is shown with.
    pub open spec fn shown_peer(self) -> (Seq<char>, Tone) {
        match self.peer {
            PeerStatus::Connected => if self.permitted {
                ("● Connected"@, Tone::Positive)
            } else {
                ("● Authorizing"@, Tone::Accent)
            },
            PeerStatus::Initiator => ("● Pairing"@, Tone::Accent),
            _ => ("○ Disconnected"@, Tone::Muted),
        }
    }

    /// What stands in the place of the pairing image, if it is not shown.
    pub open spec fn shown_slot(self) -> Option<Seq<char>> {
        if self.router_connected && self.peer_details is None {
            None
        } else if self.peer_details is Some {
            Some("Paired"@)
        } else {
            Some("—"@)
        }
    }

    /// Takes note of how the session stands, and tells whether the peer is to be asked for
    /// its permission: that is needed anew for every session.
    pub fn status(&mut self, status: PeerStatus) -> (ask: bool)
        ensures
            ask == (status == PeerStatus::Connected),
            *final(self) == (App { peer: status, permitted: false, ..*old(self) }),
            *final(self) == old(self).standing(status),
    {
        self.peer = status;
        self.permitted = false;
        status == PeerStatus::Connected
    }

    /// Takes note of whether the peer gave its permission.
    pub fn permission(&mut self, granted: bool)
        ensures
            granted ==> *final(self) == (App { permitted: true, ..*old(self) }),
            !granted ==> {
                &&& final(self).echo_result@ == "Debug permission denied"@
                &&& *final(self) == (App { echo_result: final(self).echo_result, ..*old(self) })
            },
    {
        if granted {
            self.permitted = true;
        } else {
            self.echo_result = "Debug permission denied".to_owned();
        }
    }

    /// Takes note that the router is reached.
    pub fn online(&mut self, address: &str)
        ensures
            final(self).router@ == "Router online · "@ + address@,
            *final(self) == old(self).reached(final(self).router),
            *final(self) == (App {
                router: final(self).router,
                router_connected: true,
                ..*old(self)
            }),
    {
        self.router = joined_text("Router online · ", address);
        self.router_connected = true;
    }

    /// Takes note that the connection to the router is over.
    pub fn offline(&mut self, error: &str)
        ensures
            final(self).router@ == "disconnected: "@ + error@,
            *final(self) == old(self).lost(final(self).router),
            *final(self) == (App {
                router: final(self).router,
                router_connected: false,
                permitted: false,
                peer: PeerStatus::Disconnected,
                ..*old(self)
            }),
    {
        self.router = joined_text("disconnected: ", error);
        self.router_connected = false;
        self.permitted = false;
        self.peer = PeerStatus::Disconnected;
    }

    /// What comes of what the user asks for.
    pub open spec fn submits(
        self,
        send: bool,
        download: bool,
        after: Self,
        request: Option<Request>,
    ) -> bool {
        if !(send || download) || !self.spec_enabled() {
            request is None && after == self
        } else if download {
            &&& request == Some(Request::Download(self.download_size))
            &&& after.download_result@ == "Downloading..."@
            &&& after == (App { busy: true, download_result: after.download_result, ..self })
        } else {
            &&& request == Some(Request::Echo(self.echo))
            &&& after.echo_result@ == "Sending..."@
            &&& after == (App { busy: true, echo_result: after.echo_result, ..self })
        }
    }

    /// What comes of the end of a request.
    pub open spec fn finishes(
        self,
        download: bool,
        outcome: Result<String, String>,
        after: Self,
    ) -> bool {
        let message = match outcome {
            Ok(message) => message@,
            Err(error) => "failed: "@ + error@,
        };
        if download {
            &&& after.download_result@ == message
            &&& after == (App { busy: false, download_result: after.download_result, ..self })
        } else {
            &&& after.echo_result@ == message
            &&& after == (App { busy: false, echo_result: after.echo_result, ..self })
        }
    }

    /// Takes what the user asks for: to send the message, to start the download, or both,
    /// where the download comes first. Nothing is asked of a peer that cannot be asked.
    pub fn submit(&mut self, send: bool, download: bool) -> (request: Option<Request>)
        ensures
            old(self).submits(send, download, *final(self), request),
            request is Some <==> (send || download) && old(self).spec_enabled(),
            request is None ==> *final(self) == *old(self),
            request matches Some(request) ==> {
                &&& final(self).busy
                &&& !final(self).spec_enabled()
                &&& if download {
                    &&& request == Request::Download(old(self).download_size)
                    &&& final(self).download_result@ == "Downloading..."@
                    &&& *final(self) == (App {
                        busy: true,
                        download_result: final(self).download_result,
                        ..*old(self)
                    })
                } else {
                    &&& request == Request::Echo(old(self).echo)
                    &&& final(self).echo_result@ == "Sending..."@
                    &&& *final(self) == (App {
                        busy: true,
                        echo_result: final(self).echo_result,
                        ..*old(self)
                    })
                }
            },
    {
        if !(send || download) || !self.enabled() {
            return None;
        }
        self.busy = true;
        if download {
            self.download_result = "Downloading...".to_owned();
            Some(Request::Download(self.download_size.clone()))
        } else {
            self.echo_result = "Sending...".to_owned();
            Some(Request::Echo(self.echo.clone()))
        }
    }

    /// Shows how far the download is.
    pub fn progress(&mut self, message: String)
        ensures
            *final(self) == (App { download_result: message, ..*old(self) }),
    {
        self.download_result = message;
    }

    /// Shows what came of the request: its result, or why it failed.
    pub fn finished(&mut self, download: bool, outcome: Result<String, String>)
        ensures
            old(self).finishes(download, outcome, *final(self)),
            ({
                let message = if download {
                    final(self).download_result@
                } else {
                    final(self).echo_result@
                };
                message == match outcome {
                    Ok(message) => message@,
                    Err(error) => "failed: "@ + error@,
                }
            }),
            download ==> *final(self) == (App {
                busy: false,
                download_result: final(self).download_result,
                ..*old(self)
            }),
            !download ==> *final(self) == (App {
                busy: false,
                echo_result: final(self).echo_result,
                ..*old(self)
            }),
    {
        let message: String = match outcome {
            Ok(message) => message,
            Err(error) => joined_text("failed: ", error.as_str()),
        };
        if download {
            self.download_result = message;
        } else {
            self.echo_result = message;
        }
        self.busy = false;
    }

    /// The words and the colour that the session is shown with.
    pub fn peer_label(&self) -> (label: (&'static str, Tone))
        ensures
            (label.0@, label.1) == self.shown_peer(),
            match self.peer {
                PeerStatus::Connected => if self.permitted {
                    label.0@ == "● Connected"@ && label.1 == Tone::Positive
                } else {
                    label.0@ == "● Authorizing"@ && label.1 == Tone::Accent
                },
                PeerStatus::Initiator => label.0@ == "● Pairing"@ && label.1 == Tone::Accent,
                _ => label.0@ == "○ Disconnected"@ && label.1 == Tone::Muted,
            },
    {
        match self.peer {
            PeerStatus::Connected => if self.permitted {
                ("● Connected", Tone::Positive)
            } else {
                ("● Authorizing", Tone::Accent)
            },
            PeerStatus::Initiator => ("● Pairing", Tone::Accent),
            _ => ("○ Disconnected", Tone::Muted),
        }
    }

    /// What stands in the place of the pairing image, if it is not shown: it is shown while
    /// the router is reached and nobody is paired.
    pub fn pairing_slot(&self) -> (words: Option<&'static str>)
        ensures
            match words {
                Some(words) => self.shown_slot() == Some(words@),
                None => self.shown_slot() is None,
            },
            words is None <==> self.router_connected && self.peer_details is None,
            words matches Some(words) ==> words@ == if self.peer_details is Some {
                "Paired"@
            } else {
                "—"@
            },
    {
        if self.router_connected && self.peer_details.is_none() {
            None
        } else if self.peer_details.is_some() {
            Some("Paired")
        } else {
            Some("—")
        }
    }

    /// The name and the identity of the peer, as they are shown.
    pub fn peer_text(&self) -> (texts: (String, String))
        ensures
            match self.peer_details {
                Some(peer) => texts.0@ == peer.name@ && texts.1@ == hex_text(peer.qid@),
                None => texts.0@ == ""@ && texts.1@ == ""@,
            },
    {
        match &self.peer_details {
            Some(peer) => (peer.name.clone(), peer.qid.to_hex()),
            None => ("".to_owned(), "".to_owned()),
        }
    }
}

/// While a request is under way no other is made; once it is finished, the terminal can ask
/// again as soon as it could before, if the session and the permission lasted.
pub proof fn law_one_request_at_a_time(before: App, during: App, after: App)
    requires
        before.spec_enabled(),
        during.busy,
        after == (App {
            busy: false,
            download_result: after.download_result,
            echo_result: after.echo_result,
            ..during
        }),
        during.peer == before.peer,
        during.permitted == before.permitted,
        during.router_connected == before.router_connected,
    ensures
        !during.spec_enabled(),
        after.spec_enabled(),
{
}

/// How many pixels the image of a symbol is wide and high.
pub open spec fn image_side(width: int) -> int {
    (width + 2 * QUIET_ZONE) * MODULE_SIZE
}

/// Whether a pixel of the image of a symbol is dark: the module that it lies in is.
pub open spec fn is_dark(width: int, modules: Seq<bool>, x: int, y: int) -> bool {
    let column = x / MODULE_SIZE as int - QUIET_ZONE;
    let row = y / MODULE_SIZE as int - QUIET_ZONE;
    0 <= column < width && 0 <= row < width && modules[row * width + column]
}

/// The image of a symbol, three bytes a pixel: dark modules are black, all else is white.
pub open spec fn image_of(width: int, modules: Seq<bool>) -> Seq<u8> {
    Seq::new(
        (image_side(width) * image_side(width) * 3) as nat,
        |i: int|
            if is_dark(
                width,
                modules,
                (i / 3) % image_side(width),
                (i / 3) / image_side(width),
            ) {
                0u8
            } else {
                255u8
            },
    )
}

/// Draws a symbol.
pub fn symbol_image(width: usize, modules: &Vec<bool>) -> (pixels: Vec<u8>)
    requires
        width <= 177,
        modules@.len() == width * width,
    ensures
        pixels@ == image_of(width as int, modules@),
{
    let side: usize = (width + 2 * QUIET_ZONE) * MODULE_SIZE;
    assert(side * side <= 1480 * 1480) by (nonlinear_arith)
        requires
            0 <= side <= 1480,
    ;
    let total: usize = side * side;
    let mut pixels: Vec<u8> = Vec::new();
    let mut pixel: usize = 0;
    while pixel < total
        invariant
            width <= 177,
            modules@.len() == width * width,
            side == image_side(width as int),
            0 < side <= 1480,
            total == side * side,
            total <= 1480 * 1480,
            pixel <= total,
            pixels@.len() == pixel * 3,
            pixels@ == image_of(width as int, modules@).take(pixel * 3),
        decreases total - pixel,
    {
        let x: usize = pixel % side;
        let y: usize = pixel / side;
        let column: usize = x / MODULE_SIZE;
        let row: usize = y / MODULE_SIZE;
        let inside = QUIET_ZONE <= column && column < QUIET_ZONE + width && QUIET_ZONE <= row && row
            < QUIET_ZONE + width;
        let dark = if inside {
            let a: usize = row - QUIET_ZONE;
            let b: usize = column - QUIET_ZONE;
            assert(0 <= a * width + b < width * width) by (nonlinear_arith)
                requires
                    0 <= a < width,
                    0 <= b < width,
            ;
            assert(0 <= a * width <= a * width + b) by (nonlinear_arith)
                requires
                    0 <= a,
                    0 <= width,
                    0 <= b,
            ;
            assert(width * width <= 177 * 177) by (nonlinear_arith)
                requires
                    0 <= width <= 177,
            ;
            modules[a * width + b]
        } else {
            false
        };
        assert(dark == is_dark(width as int, modules@, x as int, y as int));
        let value: u8 = if dark {
            0
        } else {
            255
        };
        let ghost before = pixels@;
        pixels.push(value);
        pixels.push(value);
        pixels.push(value);
        proof {
            let whole = image_of(width as int, modules@);
            assert(whole.len() == total * 3);
            assert forall|i: int| 0 <= i < (pixel + 1) * 3 implies pixels@[i] == whole[i] by {
                if i < pixel * 3 {
                    assert(pixels@[i] == before[i]);
                } else {
                    assert(i / 3 == pixel);
                }
            }
            assert(pixels@ =~= whole.take((pixel + 1) * 3));
        }
        pixel += 1;
    }
    assert(image_of(width as int, modules@).take(pixel * 3) =~= image_of(width as int, modules@));
    pixels
}

/// The pairing image: the symbol of the invitation in hexadecimal, with the number of pixels
/// of a side. There is none where the invitation is too long for a symbol.
pub fn pairing_image(invite: &[u8]) -> (image: Option<(usize, Vec<u8>)>)
    ensures
        match qr_symbol(vstd::utf8::encode_utf8(hex_text(invite@))) {
            None => image is None,
            Some((width, modules)) => {
                &&& image matches Some((side, pixels))
                &&& side == image_side(width as int)
                &&& pixels@ == image_of(width as int, modules)
            },
        },
{
    let text = hex_encode(invite);
    let (width, modules) = match qr_encode(text.as_str().as_bytes()) {
        Some(symbol) => symbol,
        None => return None,
    };
    let side: usize = (width + 2 * QUIET_ZONE) * MODULE_SIZE;
    Some((side, symbol_image(width, &modules)))
}

/// How long the terminal may wait for input, in nanoseconds.
pub open spec fn delay_of(
    polled: usize,
    inputs: usize,
    redraw: bool,
    deadline: Option<u64>,
    elapsed: u64,
) -> Option<u64> {
    if polled == TASK_BATCH || inputs == INPUT_BATCH {
        Some(0u64)
    } else if redraw {
        Some(REDRAW_DELAY)
    } else {
        match deadline {
            None => None,
            Some(deadline) => Some(
                if deadline > elapsed {
                    (deadline - elapsed) as u64
                } else {
                    0
                },
            ),
        }
    }
}

/// How long the terminal may wait for input, in nanoseconds: not at all if there may be
/// more to do, for a moment if it has to be drawn again, and else until a timer is due, if
/// there is one.
pub fn poll_delay(
    polled: usize,
    inputs: usize,
    redraw: bool,
    deadline: Option<u64>,
    elapsed: u64,
) -> (delay: Option<u64>)
    ensures
        delay == delay_of(polled, inputs, redraw, deadline, elapsed),
        delay == if polled == TASK_BATCH || inputs == INPUT_BATCH {
            Some(0u64)
        } else if redraw {
            Some(REDRAW_DELAY)
        } else {
            match deadline {
                None => None,
                Some(deadline) => Some(
                    if deadline > elapsed {
                        (deadline - elapsed) as u64
                    } else {
                        0
                    },
                ),
            }
        },
{
    if polled == TASK_BATCH || inputs == INPUT_BATCH {
        Some(0)
    } else if redraw {
        Some(REDRAW_DELAY)
    } else {
        match deadline {
            None => None,
            Some(deadline) => Some(deadline.saturating_sub(elapsed)),
        }
    }
}

} // verus!
