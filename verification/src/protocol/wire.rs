//! The numbers of the transport and the bytes that they are written as.
use vstd::prelude::*;

verus! {

/// The largest QL record that a packet carries.
pub const MAX_RECORD_SIZE: usize = 8 * 1024;

/// The most routes that one connection may own.
pub const MAX_ROUTES_PER_CONNECTION: usize = 64;

/// The bytes of a frame's length.
pub const FRAME_HEADER_SIZE: usize = 4;

/// The bytes of an authentication tag.
pub const AUTH_SIZE: usize = 16;

/// The bytes in front of a packet's payload: the length and the kind.
pub const PACKET_HEADER_SIZE: usize = FRAME_HEADER_SIZE + 1;

/// What a packet adds to its payload inside the frame: the kind and the tag.
pub const PACKET_OVERHEAD: usize = 1 + AUTH_SIZE;

/// The largest length that a frame may announce.
pub const MAX_FRAME_SIZE: usize = MAX_RECORD_SIZE + PACKET_OVERHEAD;

/// A number below 2^32 as four bytes, least significant first.
pub open spec fn le32(n: int) -> Seq<u8> {
    seq![
        (n % 0x100) as u8,
        (n / 0x100 % 0x100) as u8,
        (n / 0x1_0000 % 0x100) as u8,
        (n / 0x100_0000 % 0x100) as u8,
    ]
}

/// The number that the first four bytes of a byte string stand for, least significant
/// first.
pub open spec fn le32_value(bytes: Seq<u8>) -> int {
    bytes[0] + 0x100 * bytes[1] + 0x1_0000 * bytes[2] + 0x100_0000 * bytes[3]
}

/// Reading gives back the number that was written, and the bytes that were read are the
/// ones that writing their number gives.
pub proof fn le32_round_trip(n: int, bytes: Seq<u8>)
    requires
        0 <= n < 0x1_0000_0000,
    ensures
        le32(n).len() == 4,
        le32_value(le32(n)) == n,
        bytes.len() == 4 ==> le32(le32_value(bytes)) == bytes,
{
    if bytes.len() == 4 {
        let v = le32_value(bytes);
        assert(v % 0x100 == bytes[0]);
        assert(v / 0x100 == bytes[1] + 0x100 * bytes[2] + 0x1_0000 * bytes[3]);
        assert(v / 0x1_0000 == bytes[2] + 0x100 * bytes[3]);
        assert(v / 0x100_0000 == bytes[3]);
        assert(le32(v) =~= bytes);
    }
}

/// Writes a number as four bytes, least significant first, behind what is there.
pub fn push_le32(out: &mut Vec<u8>, n: u32)
    ensures
        final(out)@ == old(out)@ + le32(n as int),
{
    out.push((n % 0x100) as u8);
    out.push((n / 0x100 % 0x100) as u8);
    out.push((n / 0x1_0000 % 0x100) as u8);
    out.push((n / 0x100_0000 % 0x100) as u8);
    assert(out@ =~= old(out)@ + le32(n as int));
}

/// Reads the number that the first four bytes stand for.
pub fn read_le32(bytes: &[u8]) -> (n: u32)
    requires
        bytes@.len() >= 4,
    ensures
        n == le32_value(bytes@),
{
    bytes[0] as u32 + 0x100 * bytes[1] as u32 + 0x1_0000 * bytes[2] as u32 + 0x100_0000
        * bytes[3] as u32
}

/// What a secure packet is for.
#[derive(Clone, Copy, Debug, PartialEq, Eq, Structural)]
pub enum PacketKind {
    /// The client has derived the transport keys.
    Confirm,
    /// A peer bundle asks for a route.
    Attach,
    /// A QL record.
    Record,
}

impl PacketKind {
    /// The byte that stands for the kind.
    pub open spec fn spec_code(self) -> u8 {
        match self {
            PacketKind::Confirm => 1,
            PacketKind::Attach => 2,
            PacketKind::Record => 3,
        }
    }

    /// The kind that a byte stands for, if any.
    pub open spec fn spec_from_code(code: u8) -> Option<PacketKind> {
        if code == 1 {
            Some(PacketKind::Confirm)
        } else if code == 2 {
            Some(PacketKind::Attach)
        } else if code == 3 {
            Some(PacketKind::Record)
        } else {
            None
        }
    }

    /// The byte that stands for the kind.
    pub fn code(self) -> (code: u8)
        ensures
            code == self.spec_code(),
            PacketKind::spec_from_code(code) == Some(self),
    {
        match self {
            PacketKind::Confirm => 1,
            PacketKind::Attach => 2,
            PacketKind::Record => 3,
        }
    }

    /// The kind that a byte stands for, if any.
    pub fn from_code(code: u8) -> (kind: Option<PacketKind>)
        ensures
            kind == PacketKind::spec_from_code(code),
            kind matches Some(kind) ==> kind.spec_code() == code,
    {
        match code {
            1 => Some(PacketKind::Confirm),
            2 => Some(PacketKind::Attach),
            3 => Some(PacketKind::Record),
            _ => None,
        }
    }
}

} // verus!
