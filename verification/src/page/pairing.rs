//! The page that looks for a Passport's pairing code.
use vstd::prelude::*;

use crate::relay::target::Target;

verus! {

/// A picture of the camera, and the Passport whose pairing code is on it.
#[derive(Debug)]
pub struct CameraFrame {
    pub luma: Vec<u8>,
    pub width: usize,
    pub height: usize,
    pub target: Option<Target>,
}

/// The page.
#[derive(Debug)]
pub struct Page {
    /// Why there is no camera.
    pub camera_error: Option<String>,
    /// The last picture, until it is shown.
    pub frame: Option<CameraFrame>,
    /// The Passport that was found.
    pub target: Option<Target>,
}

/// The page as it is opened.
pub open spec fn fresh() -> Page {
    Page { camera_error: None, frame: None, target: None }
}

impl Page {
    /// The page as it is opened.
    pub fn new() -> (page: Self)
        ensures
            page == fresh(),
    {
        Page { camera_error: None, frame: None, target: None }
    }

    /// Takes note that there is no camera.
    pub fn camera_failed(&mut self, error: String)
        ensures
            *final(self) == (Page { camera_error: Some(error), ..*old(self) }),
    {
        self.camera_error = Some(error);
    }

    /// The page with the next picture.
    pub open spec fn with_frame(self, frame: CameraFrame) -> Page {
        Page {
            target: if frame.target is Some {
                frame.target
            } else {
                self.target
            },
            frame: Some(CameraFrame { target: None, ..frame }),
            ..self
        }
    }

    /// Takes the next picture. A Passport that was found stays, unless another one is found.
    pub fn set_camera_frame(&mut self, frame: CameraFrame)
        ensures
            *final(self) == old(self).with_frame(frame),
            *final(self) == (Page {
                target: if frame.target is Some {
                    frame.target
                } else {
                    old(self).target
                },
                frame: Some(CameraFrame { target: None, ..frame }),
                ..*old(self)
            }),
    {
        let CameraFrame { luma, width, height, target } = frame;
        if target.is_some() {
            self.target = target;
        }
        self.frame = Some(CameraFrame { luma, width, height, target: None });
    }

    /// The picture that is to be shown in place of the last one.
    pub fn take_preview(&mut self) -> (frame: Option<CameraFrame>)
        ensures
            frame == old(self).frame,
            *final(self) == (Page { frame: None, ..*old(self) }),
    {
        self.frame.take()
    }

    /// Whether a Passport was found, so that pairing can be started.
    pub fn found(&self) -> (found: bool)
        ensures
            found == (self.target is Some),
    {
        self.target.is_some()
    }

    /// The words that the search is shown with.
    pub fn message(&self) -> (message: &'static str)
        ensures
            message@ == if self.target is Some {
                "Pairing QR code found. Start pairing when ready."@
            } else {
                "Looking for a pairing QR code…"@
            },
    {
        if self.found() {
            "Pairing QR code found. Start pairing when ready."
        } else {
            "Looking for a pairing QR code…"
        }
    }

    /// The Passport to pair with, if one was found and the user starts the pairing.
    pub fn render(&mut self, start: bool) -> (target: Option<Target>)
        ensures
            target == if start {
                old(self).target
            } else {
                None
            },
            *final(self) == if start {
                (Page { target: None, ..*old(self) })
            } else {
                *old(self)
            },
    {
        if start {
            self.target.take()
        } else {
            None
        }
    }
}

} // verus!
