//! The relay transport: length-delimited frames, the secure packets that they carry, the
//! handshake that agrees on keys, and the routes that a connection proves.
use vstd::prelude::*;

pub mod connection;
pub mod frame;
pub mod handshake;
pub mod record;
pub mod secure;
pub mod wire;

pub use self::connection::{RouterAction, RouterConnection};
pub use self::frame::{Frame, FrameDecoder};
pub use self::handshake::{accept_handshake, ClientHandshake};
pub use self::secure::{SecureReceiver, SecureSender};
pub use self::wire::{
    PacketKind, AUTH_SIZE, FRAME_HEADER_SIZE, MAX_FRAME_SIZE, MAX_RECORD_SIZE,
    MAX_ROUTES_PER_CONNECTION, PACKET_HEADER_SIZE, PACKET_OVERHEAD,
};
