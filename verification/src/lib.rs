//! The verified core of the QL lab tools: the authenticated relay transport, the
//! router's admission and routing rules, the desktop relay's connection state, its
//! pages, the Foundation server's dispatch, the benchmark transfers and the terminal
//! peer.
#![allow(unused_imports)]

use vstd::prelude::*;

pub mod benchmark;
pub mod camera;
pub mod error;
pub mod external;
pub mod laws;
pub mod page;
pub mod pages;
pub mod pairing;
pub mod platform;
pub mod protocol;
pub mod qid;
pub mod relay;
pub mod router;
pub mod rpc;
pub mod server;
pub mod table;
pub mod terminal;
pub mod text;
pub mod theme;
pub mod transport;

verus! {

/// The address that a router listens on, and clients connect to, by default.
pub const DEFAULT_ADDRESS: &'static str = "127.0.0.1:7447";

} // verus!
