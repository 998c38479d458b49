//! What the desktop's colours stand for, and the size of its window.
use vstd::prelude::*;

verus! {

/// The width of the window.
pub const WINDOW_WIDTH: u32 = 800;

/// The height of the window.
pub const WINDOW_HEIGHT: u32 = 480;

/// What a colour says of the thing that it is given to.
#[derive(Clone, Copy, Debug, PartialEq, Eq, Structural)]
pub enum Tone {
    /// It is done, or all is well.
    Positive,
    /// It went wrong.
    Negative,
    /// It is going on.
    Accent,
    /// It is of no concern yet.
    Muted,
    /// It is plain text.
    Text,
}

} // verus!
