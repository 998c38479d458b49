//! The relay's connection to the router.
use vstd::prelude::*;

use crate::protocol::record::PeerBundle;

verus! {

/// How many seconds the relay waits before it connects to the router again.
pub const RECONNECT_DELAY: u64 = 1;

/// What the relay has for the router.
#[derive(Debug)]
pub enum RouterMessage {
    /// A record to carry.
    Record(Vec<u8>),
    /// An identity to attach.
    Attach(PeerBundle),
}

/// What happened on the way to the router.
#[derive(Debug)]
pub enum UplinkEvent {
    /// The router could not be reached.
    Unavailable,
    /// The transport is set up.
    Connected,
    /// The router sent a record.
    Record(Vec<u8>),
    /// The record was handed to the Passport, or could not be.
    Written,
    /// The router ended the connection.
    Ended,
    /// Reading from the router failed.
    ReadFailed,
    /// The relay has a message for the router.
    Outbound(RouterMessage),
    /// The relay is gone.
    OutboundClosed,
    /// The message was sent.
    Sent,
    /// Writing to the router failed.
    WriteFailed,
}

/// What is done next.
#[derive(Debug)]
pub enum UplinkStep {
    /// Wait, then connect.
    Reconnect,
    /// Begin to read a record, and wait for it or for a message of the relay.
    Read,
    /// Wait on, for the record whose reading has begun or for a message of the relay.
    Resume,
    /// Hand the record to the Passport.
    Write(Vec<u8>),
    /// Send the record to the router.
    Send(Vec<u8>),
    /// Attach the identity at the router.
    Attach(PeerBundle),
    /// Stop.
    Stop,
}

/// What is done next about each event. Only a record that was handed on starts a new read:
/// a message of the relay leaves the read that is under way alone, so no byte of a frame
/// is lost.
pub open spec fn uplink_step_of(event: UplinkEvent) -> UplinkStep {
    match event {
        UplinkEvent::Unavailable => UplinkStep::Reconnect,
        UplinkEvent::Connected => UplinkStep::Read,
        UplinkEvent::Record(record) => UplinkStep::Write(record),
        UplinkEvent::Written => UplinkStep::Read,
        UplinkEvent::Ended => UplinkStep::Reconnect,
        UplinkEvent::ReadFailed => UplinkStep::Reconnect,
        UplinkEvent::Outbound(RouterMessage::Record(record)) => UplinkStep::Send(record),
        UplinkEvent::Outbound(RouterMessage::Attach(peer)) => UplinkStep::Attach(peer),
        UplinkEvent::OutboundClosed => UplinkStep::Stop,
        UplinkEvent::Sent => UplinkStep::Resume,
        UplinkEvent::WriteFailed => UplinkStep::Reconnect,
    }
}

/// What is done next about an event.
pub fn uplink_step(event: UplinkEvent) -> (step: UplinkStep)
    ensures
        step == uplink_step_of(event),
{
    match event {
        UplinkEvent::Connected | UplinkEvent::Written => UplinkStep::Read,
        UplinkEvent::Record(record) => UplinkStep::Write(record),
        UplinkEvent::Outbound(RouterMessage::Record(record)) => UplinkStep::Send(record),
        UplinkEvent::Outbound(RouterMessage::Attach(peer)) => UplinkStep::Attach(peer),
        UplinkEvent::OutboundClosed => UplinkStep::Stop,
        UplinkEvent::Sent => UplinkStep::Resume,
        UplinkEvent::Unavailable | UplinkEvent::Ended | UplinkEvent::ReadFailed
        | UplinkEvent::WriteFailed => UplinkStep::Reconnect,
    }
}

} // verus!
