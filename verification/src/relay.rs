//! The desktop relay: it pairs with a Passport over Bluetooth and carries the Passport's
//! records to the router.
use vstd::prelude::*;

pub mod link;
pub mod steps;
pub mod target;
pub mod uplink;

pub use self::link::{Peer, PeerStatus, Phase, Relay, State};
pub use self::target::{Invite, Target};
