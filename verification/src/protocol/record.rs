//! What the transport reads of QL records and peer bundles. Their encodings belong to the
//! wire crate; here they are plain values.
use vstd::prelude::*;

use crate::qid::{copy_bytes, Qid};

verus! {

/// Where a record comes from and where it goes.
#[derive(Debug)]
pub struct RouteHeader {
    pub sender: Qid,
    pub recipient: Qid,
}

/// What a record is for.
#[derive(Clone, Copy, Debug, PartialEq, Eq, Structural)]
pub enum RecordType {
    /// The record belongs to a handshake.
    Handshake,
    /// The record belongs to an established session.
    Session,
}

/// The header in front of every record.
#[derive(Debug)]
pub struct RecordHeader {
    pub version: u8,
    pub route: RouteHeader,
    pub record_type: RecordType,
}

impl RecordHeader {
    /// Whether two headers hold the same.
    pub open spec fn same_as(self, other: RecordHeader) -> bool {
        &&& self.version == other.version
        &&& self.route.sender@ == other.route.sender@
        &&& self.route.recipient@ == other.route.recipient@
        &&& self.record_type == other.record_type
    }
}

/// A handshake record: the opening message, the answer to it, or one that the transport
/// has no use for.
#[derive(Debug)]
pub enum HandshakeRecord<A, B> {
    Ik1(A),
    Ik2(B),
    Other,
}

/// The public half of an identity, with the bytes that it is written as.
#[derive(Debug)]
pub struct PeerBundle {
    pub qid: Qid,
    pub name: String,
    pub encoded: Vec<u8>,
}

impl PeerBundle {
    /// Whether two bundles hold the same.
    pub open spec fn same_as(self, other: PeerBundle) -> bool {
        &&& self.qid@ == other.qid@
        &&& self.name@ == other.name@
        &&& self.encoded@ == other.encoded@
    }
}

impl Clone for PeerBundle {
    fn clone(&self) -> (copy: Self)
        ensures
            copy.same_as(*self),
    {
        PeerBundle {
            qid: self.qid.clone(),
            name: self.name.clone(),
            encoded: copy_bytes(self.encoded.as_slice()),
        }
    }
}

} // verus!
