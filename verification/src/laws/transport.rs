//! What is promised of the transport: how frames and packets are laid out, which of them are
//! taken, and what a handshake and a connection come to.
use vstd::prelude::*;
use vstd::std_specs::cmp::PartialEqSpec;

use crate::error::{Error, ErrorKind};
use crate::external::{hex_digit, hex_text, hex_value};
use crate::protocol::frame::{missing, progress, Frame, FrameDecoder, Progress};
use crate::protocol::handshake::{
    accepted_by, answered_by, checked_handshake, encodes, finished_by, handshake_header, Agreed,
    Answered, Begun, ClientHandshake, Decoded,
};
use crate::protocol::record::{HandshakeRecord, PeerBundle, RecordHeader, RouteHeader};
use crate::protocol::secure::{
    authenticated, checks_by, makes_by, opens, packet, unpacked, SecureReceiver, SecureSender,
    SessionKey,
};
use crate::protocol::wire::{
    le32, le32_value, PacketKind, AUTH_SIZE, FRAME_HEADER_SIZE, MAX_FRAME_SIZE, MAX_RECORD_SIZE,
};
use crate::qid::{qid_views, Qid};
use crate::transport::{
    connected, connects, deadline_from, next_deadline, receives, record_of, FrameRead, ReadOutcome, Sender,
    SocketWriter, CONNECT_TIMEOUT,
};

verus! {

/// Lengths are written as four bytes, the least significant first.
pub proof fn law_lengths_are_little_endian(n: int, bytes: Seq<u8>)
    requires
        0 <= n < 0x1_0000_0000,
    ensures
        le32(n).len() == 4,
        n == le32(n)[0] + 256 * le32(n)[1] + 65536 * le32(n)[2] + 16777216 * le32(n)[3],
        bytes.len() >= 4 ==> le32_value(bytes) == bytes[0] + 256 * bytes[1] + 65536 * bytes[2]
            + 16777216 * bytes[3],
{
}

/// The kinds of packets have the bytes one, two and three, and no other byte is a kind.
pub proof fn law_packet_kinds(code: u8, kind: PacketKind)
    ensures
        kind.spec_code() == match kind {
            PacketKind::Confirm => 1u8,
            PacketKind::Attach => 2u8,
            PacketKind::Record => 3u8,
        },
        PacketKind::spec_from_code(code) is Some <==> 1 <= code <= 3,
        PacketKind::spec_from_code(code) == Some(kind) <==> kind.spec_code() == code,
{
}

/// A frame announces its length in its first four bytes. Up to 8209 it is taken, and is whole
/// with exactly that many bytes behind those four; above it is refused at once. Until then
/// just what is missing is asked for.
pub proof fn law_frames_are_taken_up_to_the_limit(received: Seq<u8>, announced: int)
    requires
        received.len() >= 4 ==> announced == received[0] + 256 * received[1] + 65536 * received[2]
            + 16777216 * received[3],
    ensures
        received.len() < 4 ==> progress(received) is Partial && missing(received) == 4
            - received.len(),
        received.len() >= 4 && announced > 8209 ==> progress(received) is TooLarge && missing(
            received,
        ) == 0,
        received.len() >= 4 && announced <= 8209 ==> {
            &&& !(progress(received) is TooLarge)
            &&& progress(received) is Whole <==> received.len() == 4 + announced
            &&& missing(received) == 4 + announced - received.len()
        },
{
}

/// Any content of up to 8209 bytes is carried whole: behind its length it is a frame.
pub proof fn law_any_content_is_carried(content: Seq<u8>)
    requires
        content.len() <= 8209,
    ensures
        progress(le32(content.len() as int) + content) is Whole,
        (le32(content.len() as int) + content).skip(4) == content,
{
    let frame = le32(content.len() as int) + content;
    law_lengths_are_little_endian(content.len() as int, frame);
    assert(forall|i: int| 0 <= i < 4 ==> frame[i] == le32(content.len() as int)[i]);
    law_frames_are_taken_up_to_the_limit(frame, content.len() as int);
    assert(frame.skip(4) =~= content);
}

/// A packet is the length of what follows, the byte of its kind, its payload and a tag of
/// sixteen bytes; the tag covers all that stands in front of it.
pub proof fn law_packet_layout(kind: PacketKind, payload: Seq<u8>, tag: Seq<u8>, i: int)
    requires
        payload.len() <= 8192,
        tag.len() == 16,
    ensures
        packet(kind, payload, tag).len() == 21 + payload.len(),
        ({
            let frame = packet(kind, payload, tag);
            &&& frame[0] + 256 * frame[1] + 65536 * frame[2] + 16777216 * frame[3] == 17
                + payload.len()
            &&& frame[4] == kind.spec_code()
            &&& 0 <= i < payload.len() ==> frame[5 + i] == payload[i]
            &&& 0 <= i < 16 ==> frame[5 + payload.len() + i] == tag[i]
            &&& progress(frame) is Whole
        }),
        packet(kind, payload, tag) == authenticated(kind, payload) + tag,
        authenticated(kind, payload).len() == 5 + payload.len(),
{
    let n = 17 + payload.len();
    let frame = packet(kind, payload, tag);
    law_lengths_are_little_endian(n as int, frame);
    assert(forall|j: int| 0 <= j < 4 ==> frame[j] == le32(n as int)[j]);
    law_frames_are_taken_up_to_the_limit(frame, n as int);
}

/// A frame is a packet exactly if it has the 21 bytes that every packet has, states its own
/// length and names a kind; then its kind, its payload and its tag are those bytes, whatever
/// they are. Otherwise the first of these that it lacks is reported.
pub proof fn law_every_whole_packet_is_taken_apart(frame: Seq<u8>, announced: int)
    requires
        frame.len() >= 4 ==> announced == frame[0] + 256 * frame[1] + 65536 * frame[2] + 16777216
            * frame[3],
    ensures
        frame.len() < 21 ==> unpacked(frame) == Err::<(PacketKind, Seq<u8>, Seq<u8>), Error>(
            Error::InvalidFrame,
        ),
        frame.len() >= 21 && announced != frame.len() - 4 ==> unpacked(frame) == Err::<
            (PacketKind, Seq<u8>, Seq<u8>),
            Error,
        >(Error::InvalidFrameLength),
        frame.len() >= 21 && announced == frame.len() - 4 && !(1 <= frame[4] <= 3) ==> unpacked(
            frame,
        ) == Err::<(PacketKind, Seq<u8>, Seq<u8>), Error>(Error::UnknownPacketKind),
        frame.len() >= 21 && announced == frame.len() - 4 && 1 <= frame[4] <= 3 ==> {
            &&& unpacked(frame) matches Ok((kind, payload, tag))
            &&& kind.spec_code() == frame[4]
            &&& payload == frame.subrange(5, frame.len() - 16)
            &&& tag == frame.subrange(frame.len() - 16, frame.len() as int)
        },
{
    if frame.len() >= 21 {
        assert(frame.skip(frame.len() - 16) =~= frame.subrange(
            frame.len() - 16,
            frame.len() as int,
        ));
    }
}

/// A receiver that has not failed and has numbers left opens every packet whose tag is the
/// one for its key and its next number, whatever the packet's kind and payload are, and goes
/// on with the number behind it; it refuses any other tag, and takes nothing any more.
pub proof fn law_good_packets_are_opened<V>(
    mac: spec_fn(SessionKey, u64, Seq<u8>) -> Seq<u8>,
    verify: V,
    before: SecureReceiver,
    number: u64,
    kind: PacketKind,
    payload: Seq<u8>,
    tag: Seq<u8>,
    after: SecureReceiver,
    outcome: Result<(PacketKind, Vec<u8>), Error>,
) where V: FnOnce(&SessionKey, u64, &[u8], &[u8]) -> bool
    requires
        checks_by(verify, mac),
        before.spec_counter() == Some(number),
        number < u64::MAX,
        payload.len() <= 8192,
        tag.len() == 16,
        opens(before, packet(kind, payload, tag), verify, after, outcome),
    ensures
        tag == mac(before.spec_key(), number, authenticated(kind, payload)) ==> {
            &&& outcome matches Ok((opened, content))
            &&& opened == kind
            &&& content@ == payload
            &&& after.spec_counter() == Some((number + 1) as u64)
        },
        tag != mac(before.spec_key(), number, authenticated(kind, payload)) ==> {
            &&& outcome == Err::<(PacketKind, Vec<u8>), Error>(Error::TagMismatch)
            &&& after.spec_counter() is None
        },
        after.spec_key() == before.spec_key(),
{
    crate::protocol::secure::law_unpacked_is_packed(kind, payload, tag, kind, payload);
}

/// A receiver that failed, or whose numbers are used up, opens nothing; and no frame that is
/// refused, for whatever reason, leaves the direction alive.
pub proof fn law_failed_receivers_open_nothing<V>(
    verify: V,
    before: SecureReceiver,
    frame: Seq<u8>,
    after: SecureReceiver,
    outcome: Result<(PacketKind, Vec<u8>), Error>,
) where V: FnOnce(&SessionKey, u64, &[u8], &[u8]) -> bool
    requires
        opens(before, frame, verify, after, outcome),
    ensures
        before.spec_counter() is None ==> outcome == Err::<(PacketKind, Vec<u8>), Error>(
            Error::ReceiverFailed,
        ),
        before.spec_counter() == Some(u64::MAX) ==> outcome == Err::<(PacketKind, Vec<u8>), Error>(
            Error::CounterExhausted,
        ),
        outcome is Err ==> after.spec_counter() is None,
        outcome is Ok ==> (before.spec_counter() matches Some(number) && after.spec_counter()
            == Some((number + 1) as u64)),
        before.spec_counter() matches Some(number) && number < u64::MAX && (unpacked(
            frame,
        ) matches Err(error)) ==> outcome is Err && outcome == Err::<(PacketKind, Vec<u8>), Error>(
            unpacked(frame)->Err_0,
        ),
{
}

/// Every payload of up to 8192 bytes is sealed while there are numbers left: into a frame of
/// its kind and content, under the tag for the sender's key and number, which is used up. A
/// larger one is refused and uses nothing.
pub proof fn law_every_payload_is_sealed<T>(
    mac: spec_fn(SessionKey, u64, Seq<u8>) -> Seq<u8>,
    tag: T,
    before: SecureSender,
    kind: PacketKind,
    payload: Seq<u8>,
    after: SecureSender,
    old_frame: Seq<u8>,
    frame: Seq<u8>,
    outcome: Result<(), Error>,
) where T: FnOnce(&SessionKey, u64, &[u8]) -> [u8; AUTH_SIZE]
    requires
        makes_by(tag, mac),
        before.seals(kind, payload, tag, after, old_frame, frame, outcome),
    ensures
        after.spec_key() == before.spec_key(),
        payload.len() <= 8192 && before.spec_counter() < u64::MAX ==> {
            &&& outcome is Ok
            &&& frame == packet(
                kind,
                payload,
                mac(before.spec_key(), before.spec_counter(), authenticated(kind, payload)),
            )
            &&& after.spec_counter() == before.spec_counter() + 1
        },
        payload.len() > 8192 ==> outcome == Err::<(), Error>(Error::PayloadTooLarge),
        payload.len() <= 8192 && before.spec_counter() == u64::MAX ==> outcome == Err::<(), Error>(
            Error::CounterExhausted,
        ),
        outcome is Err ==> frame == old_frame && after.spec_counter() == before.spec_counter(),
{
}

/// A handshake record is taken exactly if the codec read it to its last byte and its header
/// has the version in use and the type of a handshake; it is given as it was read, whoever it
/// comes from and whatever it holds.
pub proof fn law_handshake_records_are_taken<A, B>(
    header: RecordHeader,
    record: HandshakeRecord<A, B>,
    trailing: usize,
    text: String,
    wire_version: u8,
)
    ensures
        checked_handshake::<A, B>(Err(text), wire_version) == Err::<
            (RecordHeader, HandshakeRecord<A, B>),
            Error,
        >(Error::Rejected(text)),
        ({
            let good = header.version == wire_version && header.record_type is Handshake && trailing
                == 0;
            let checked = checked_handshake(Ok((header, record, trailing)), wire_version);
            &&& good ==> checked == Ok::<_, Error>((header, record))
            &&& !good ==> checked == Err::<(RecordHeader, HandshakeRecord<A, B>), Error>(
                Error::InvalidHandshake,
            )
        }),
        Error::InvalidHandshake.spec_kind() == ErrorKind::InvalidData,
{
}

/// A handshake record of up to 8209 bytes is sent in a frame that carries just what the codec
/// wrote; a larger one is refused.
pub proof fn law_handshake_records_are_framed<A, B, W>(
    header: RecordHeader,
    record: HandshakeRecord<A, B>,
    write: W,
    written: Vec<u8>,
    outcome: Result<Vec<u8>, Error>,
) where W: FnOnce(&RecordHeader, HandshakeRecord<A, B>) -> Vec<u8>
    requires
        forall|result: Vec<u8>| #[trigger]
            call_ensures(write, (&header, record), result) ==> result == written,
        encodes(header, record, write, outcome),
    ensures
        written@.len() <= 8209 ==> {
            &&& outcome matches Ok(frame)
            &&& frame@.len() == 4 + written@.len()
            &&& frame@[0] + 256 * frame@[1] + 65536 * frame@[2] + 16777216 * frame@[3]
                == written@.len()
            &&& frame@.skip(4) == written@
        },
        written@.len() > 8209 ==> outcome == Err::<Vec<u8>, Error>(Error::PayloadTooLarge),
{
    if written@.len() <= 8209 {
        law_lengths_are_little_endian(written@.len() as int, Seq::empty());
        let frame = (outcome->Ok_0)@;
        assert(forall|i: int| 0 <= i < 4 ==> frame[i] == le32(written@.len() as int)[i]);
    }
}

/// The header of a handshake record has the version in use, the type of a handshake, and the
/// two identities, each in its place.
pub proof fn law_handshake_headers(
    header: RecordHeader,
    wire_version: u8,
    sender: Seq<u8>,
    recipient: Seq<u8>,
)
    ensures
        handshake_header(header, wire_version, sender, recipient) <==> header.version
            == wire_version && header.record_type is Handshake && header.route.sender@ == sender
            && header.route.recipient@ == recipient,
{
}

/// An opening message is answered by what the router's side of the handshake makes of it: its
/// answer goes back from where the opening went to where it came from, in one frame, and the
/// two directions get the two keys, the inbound one first, and count from zero. What that
/// side refuses, at either step, is refused in its words.
pub proof fn law_opening_is_answered<A, B, H, P, W, C>(
    route: RouteHeader,
    opening: A,
    wire_version: u8,
    respond: P,
    answered: Answered<H, B>,
    write: W,
    complete: C,
    agreed: Agreed,
    outcome: Result<(Vec<u8>, SecureReceiver, SecureSender), Error>,
) where
    P: FnOnce(&RouteHeader, A) -> Answered<H, B>,
    W: FnOnce(&RecordHeader, HandshakeRecord<A, B>) -> Vec<u8>,
    C: FnOnce(H) -> Agreed,

    requires
        forall|result: Answered<H, B>| #[trigger]
            call_ensures(respond, (&route, opening), result) ==> result == answered,
        forall|state: H, result: Agreed| #[trigger]
            call_ensures(complete, (state,), result) ==> result == agreed,
        answered_by(route, opening, wire_version, respond, write, complete, outcome),
    ensures
        answered matches Err(text) ==> outcome == Err::<
            (Vec<u8>, SecureReceiver, SecureSender),
            Error,
        >(Error::Rejected(text)),
        answered matches Ok((state, answer)) ==> exists|
            header: RecordHeader,
            encoded: Result<Vec<u8>, Error>,
        |
            {
                &&& header.version == wire_version
                &&& header.record_type is Handshake
                &&& header.route.sender@ == route.recipient@
                &&& header.route.recipient@ == route.sender@
                &&& #[trigger] encodes(
                    header,
                    HandshakeRecord::<A, B>::Ik2(answer),
                    write,
                    encoded,
                )
                &&& match (encoded, agreed) {
                    (Err(error), _) => outcome == Err::<
                        (Vec<u8>, SecureReceiver, SecureSender),
                        Error,
                    >(error),
                    (Ok(_), Err(text)) => outcome == Err::<
                        (Vec<u8>, SecureReceiver, SecureSender),
                        Error,
                    >(Error::Rejected(text)),
                    (Ok(frame), Ok((rx, tx))) => {
                        &&& outcome matches Ok((response, receiver, sender))
                        &&& response == frame
                        &&& receiver.spec_key() == rx
                        &&& receiver.spec_counter() == Some(0u64)
                        &&& sender.spec_key() == tx
                        &&& sender.spec_counter() == 0
                    },
                }
            },
{
}

/// The client's handshake ends by what its side makes of the answering message, with the
/// route that it came along: the two directions get the two keys, the inbound one first, and
/// count from zero. Any other record is refused.
pub proof fn law_answer_ends_the_handshake<H, A, B, R, C>(
    state: H,
    response: Seq<u8>,
    wire_version: u8,
    read: R,
    header: RecordHeader,
    record: HandshakeRecord<A, B>,
    complete: C,
    agreed: Agreed,
    outcome: Result<(SecureReceiver, SecureSender), Error>,
) where R: FnOnce(&[u8]) -> Decoded<A, B>, C: FnOnce(H, RouteHeader, B) -> Agreed
    requires
        forall|bytes: &[u8], decoded: Decoded<A, B>|
            bytes@ == response.skip(4) && #[trigger] call_ensures(read, (bytes,), decoded)
                ==> decoded == Ok::<_, String>((header, record, 0usize)),
        header.version == wire_version,
        header.record_type is Handshake,
        forall|answer: B, result: Agreed| #[trigger]
            call_ensures(complete, (state, header.route, answer), result) ==> result == agreed,
        finished_by(state, response, wire_version, read, complete, outcome),
    ensures
        record is Ik2 ==> match agreed {
            Ok((rx, tx)) => {
                &&& outcome matches Ok((receiver, sender))
                &&& receiver.spec_key() == rx
                &&& receiver.spec_counter() == Some(0u64)
                &&& sender.spec_key() == tx
                &&& sender.spec_counter() == 0
            },
            Err(text) => outcome == Err::<(SecureReceiver, SecureSender), Error>(
                Error::Rejected(text),
            ),
        },
        !(record is Ik2) ==> outcome == Err::<(SecureReceiver, SecureSender), Error>(
            Error::UnexpectedHandshake,
        ),
{
}

/// A record that a client opened is taken as it is; any other packet is refused, and so is
/// what the transport refuses.
pub proof fn law_client_takes_every_record(kind: PacketKind, payload: Vec<u8>, error: Error)
    ensures
        record_of(Ok((kind, payload))) == if kind is Record {
            Ok::<Vec<u8>, Error>(payload)
        } else {
            Err(Error::UnexpectedRouterPacket)
        },
        record_of(Err(error)) == Err::<Vec<u8>, Error>(error),
{
}

/// What one end sends the other end takes, whatever the record is, up to 8192 bytes: the
/// frame that stands ready is opened, by a receiver with the same key and number, to the
/// record that was given, and both go on with the next number.
pub proof fn law_record_sent_is_record_received<W, T, V>(
    mac: spec_fn(SessionKey, u64, Seq<u8>) -> Seq<u8>,
    sender: Sender<W>,
    record: Seq<u8>,
    tag: T,
    sending: Sender<W>,
    sent: Result<(), Error>,
    receiver: SecureReceiver,
    verify: V,
    after: SecureReceiver,
    outcome: Result<Vec<u8>, Error>,
) where
    T: FnOnce(&SessionKey, u64, &[u8]) -> [u8; AUTH_SIZE],
    V: FnOnce(&SessionKey, u64, &[u8], &[u8]) -> bool,

    requires
        makes_by(tag, mac),
        checks_by(verify, mac),
        record.len() <= 8192,
        sender.tcp.spec_writable(),
        sender.secure.spec_counter() < u64::MAX,
        receiver.spec_key() == sender.secure.spec_key(),
        receiver.spec_counter() == Some(sender.secure.spec_counter()),
        sender.sends(PacketKind::Record, record, tag, sending, sent),
        receives(receiver, sending.frame@, verify, after, outcome),
    ensures
        sent is Ok,
        outcome matches Ok(received) && received@ == record,
        after.spec_counter() == Some(sending.secure.spec_counter()),
        sending.secure.spec_counter() == sender.secure.spec_counter() + 1,
{
    let (bytes, made) = choose|bytes: &[u8], made: [u8; AUTH_SIZE]|
        {
            &&& bytes@ == authenticated(PacketKind::Record, record)
            &&& #[trigger] call_ensures(
                tag,
                (&sender.secure.spec_key(), sender.secure.spec_counter(), bytes),
                made,
            )
            &&& sending.frame@ == packet(PacketKind::Record, record, made@)
        };
    assert(call_ensures(
        tag,
        (&sender.secure.spec_key(), sender.secure.spec_counter(), bytes),
        made,
    ));
    crate::protocol::secure::law_unpacked_is_packed(
        PacketKind::Record,
        record,
        made@,
        PacketKind::Record,
        record,
    );
    let opened = choose|opened: Result<(PacketKind, Vec<u8>), Error>|
        {
            &&& #[trigger] opens(receiver, sending.frame@, verify, after, opened)
            &&& outcome == record_of(opened)
        };
    assert(opens(receiver, sending.frame@, verify, after, opened));
}

/// A sender whose writer is broken sends nothing, of no kind and no length; what it refuses
/// for its size or for want of numbers changes nothing, and anything else takes one number
/// and one write.
pub proof fn law_broken_writers_send_nothing<W, T>(
    sender: Sender<W>,
    kind: PacketKind,
    payload: Seq<u8>,
    tag: T,
    after: Sender<W>,
    outcome: Result<(), Error>,
) where T: FnOnce(&SessionKey, u64, &[u8]) -> [u8; AUTH_SIZE]
    requires
        sender.sends(kind, payload, tag, after, outcome),
    ensures
        outcome is Ok <==> sender.tcp.spec_writable() && payload.len() <= 8192
            && sender.secure.spec_counter() < u64::MAX,
        payload.len() > 8192 ==> outcome == Err::<(), Error>(Error::PayloadTooLarge),
        payload.len() <= 8192 && sender.secure.spec_counter() == u64::MAX ==> outcome == Err::<
            (),
            Error,
        >(Error::CounterExhausted),
        outcome == Err::<(), Error>(Error::PayloadTooLarge) || outcome == Err::<(), Error>(
            Error::CounterExhausted,
        ) ==> after.tcp.spec_writable() == sender.tcp.spec_writable() && after.frame@
            == sender.frame@ && after.secure.spec_counter() == sender.secure.spec_counter(),
        payload.len() <= 8192 && sender.secure.spec_counter() < u64::MAX ==> {
            &&& !after.tcp.spec_writable()
            &&& after.secure.spec_counter() == sender.secure.spec_counter() + 1
            &&& !sender.tcp.spec_writable() ==> outcome == Err::<(), Error>(Error::WriterBroken)
        },
        after.secure.spec_key() == sender.secure.spec_key(),
        after.tcp.spec_inner() == sender.tcp.spec_inner(),
        Error::WriterBroken.spec_kind() == ErrorKind::BrokenPipe,
{
}

/// A client that is set up receives with the inbound key from number zero, sends with the
/// outbound key from number one, and has number zero in the empty confirmation that it sends
/// first.
pub proof fn law_set_up_is_confirmed<T>(
    mac: spec_fn(SessionKey, u64, Seq<u8>) -> Seq<u8>,
    rx: SessionKey,
    tx: SessionKey,
    tag: T,
    outcome: Result<(SecureReceiver, SecureSender, Vec<u8>), Error>,
) where T: FnOnce(&SessionKey, u64, &[u8]) -> [u8; AUTH_SIZE]
    requires
        makes_by(tag, mac),
        connected(rx, tx, tag, outcome),
    ensures
        outcome matches Ok((receiver, sender, frame)) && receiver.spec_key() == rx
            && receiver.spec_counter() == Some(0u64) && sender.spec_key() == tx
            && sender.spec_counter() == 1 && frame@ == packet(
            PacketKind::Confirm,
            Seq::empty(),
            mac(tx, 0, authenticated(PacketKind::Confirm, Seq::empty())),
        ),
        CONNECT_TIMEOUT == 10,
{
}

/// The deadline of a frame lies as far behind its first byte as the assembly may take, however
/// late that is; what comes later does not move it, and without a limit there is none.
pub proof fn law_deadlines_do_not_move(
    assembly: Option<u64>,
    deadline: Option<int>,
    first: int,
    later: int,
)
    ensures
        assembly matches Some(limit) ==> next_deadline(None, assembly, first) == Some(
            first + limit,
        ) && deadline_from(assembly, first) == Some(first + limit),
        assembly is None ==> next_deadline(None, assembly, first) is None && deadline_from(
            assembly,
            first,
        ) is None,
        deadline is Some ==> next_deadline(deadline, assembly, later) == deadline,
        assembly is Some ==> next_deadline(
            next_deadline(None, assembly, first),
            assembly,
            later,
        ) == next_deadline(None, assembly, first),
{
}

/// The sizes of the transport: a record of 8192 bytes is the largest, and with its kind, its
/// tag and its length it makes the largest frame.
pub proof fn law_transport_sizes()
    ensures
        MAX_RECORD_SIZE == 8192,
        MAX_FRAME_SIZE == 8209,
        FRAME_HEADER_SIZE == 4,
        AUTH_SIZE == 16,
{
}

/// What each failure counts as: a caller's mistake, an end too soon, a forged packet, a broken
/// pipe, a time that ran out, numbers that ran out; all else is bad data.
pub proof fn law_error_kinds(error: Error)
    ensures
        error.spec_kind() == ErrorKind::InvalidInput <==> error is BeyondBuffer || (
        error is PayloadTooLarge),
        error.spec_kind() == ErrorKind::UnexpectedEof <==> error is EndedWithinFrame || (
        error is RouterDisconnected),
        error.spec_kind() == ErrorKind::PermissionDenied <==> error is TagMismatch,
        error.spec_kind() == ErrorKind::BrokenPipe <==> error is WriterBroken,
        error.spec_kind() == ErrorKind::TimedOut <==> error is AssemblyTimedOut || (
        error is ConnectTimedOut),
        error.spec_kind() == ErrorKind::Other <==> error is CounterExhausted || (
        error is HandshakeIdExhausted),
        error matches Error::Rejected(text) ==> error.spec_message() == text@,
{
}

/// The decoder takes all that fits its room. It hands out a frame exactly when the bytes of it
/// are all there, and then just those bytes, and starts anew; it refuses one that announces
/// more than 8209 bytes with its fourth byte, and keeps everything until then.
pub proof fn law_decoder_hands_out_each_frame(
    before: FrameDecoder,
    amount: usize,
    received: Seq<u8>,
    announced: int,
    after: FrameDecoder,
    outcome: Result<Option<Frame>, Error>,
)
    requires
        amount <= before.room().len(),
        received == before.received() + before.room().take(amount as int),
        received.len() >= 4 ==> announced == received[0] + 256 * received[1] + 65536 * received[2]
            + 16777216 * received[3],
        before.advances(amount, after, outcome),
    ensures
        received.len() < 4 ==> (outcome matches Ok(None)) && after.received() == received,
        received.len() >= 4 && announced > 8209 ==> outcome == Err::<Option<Frame>, Error>(
            Error::FrameTooLarge,
        ) && after.received() == received,
        received.len() >= 4 && announced <= 8209 && received.len() == 4 + announced ==> {
            &&& outcome matches Ok(Some(frame))
            &&& frame@ == received
            &&& after.received() == Seq::<u8>::empty()
        },
        received.len() >= 4 && announced <= 8209 && received.len() != 4 + announced ==> (
        outcome matches Ok(None)) && after.received() == received,
{
}

/// A read that brings more than there is room for is refused and changes nothing.
pub proof fn law_decoder_keeps_to_its_room(
    before: FrameDecoder,
    amount: usize,
    after: FrameDecoder,
    outcome: Result<Option<Frame>, Error>,
)
    requires
        amount > before.room().len(),
        before.advances(amount, after, outcome),
    ensures
        outcome == Err::<Option<Frame>, Error>(Error::BeyondBuffer),
        after.received() == before.received(),
        after.room() == before.room(),
{
}

/// A reading of a frame hands out what the decoder does; the connection may end between two
/// frames and nowhere else. The deadline is set by the first byte and stays.
pub proof fn law_frames_are_read_in_time(
    before: FrameRead,
    decoder: FrameDecoder,
    read: usize,
    now: u64,
    after: FrameRead,
    decoder_after: FrameDecoder,
    outcome: Result<ReadOutcome, Error>,
)
    requires
        before.reads(decoder, read, now, after, decoder_after, outcome),
    ensures
        read == 0 && decoder.received().len() == 0 ==> outcome == Ok::<ReadOutcome, Error>(
            ReadOutcome::Ended,
        ),
        read == 0 && decoder.received().len() > 0 ==> outcome == Err::<ReadOutcome, Error>(
            Error::EndedWithinFrame,
        ),
        read == 0 ==> decoder_after.received() == decoder.received(),
        read > 0 ==> exists|advanced: Result<Option<Frame>, Error>|
            {
                &&& #[trigger] decoder.advances(read, decoder_after, advanced)
                &&& advanced matches Ok(Some(frame)) ==> outcome == Ok::<ReadOutcome, Error>(
                    ReadOutcome::Frame(frame),
                )
                &&& advanced matches Ok(None) ==> outcome == Ok::<ReadOutcome, Error>(
                    ReadOutcome::Unfinished,
                )
                &&& advanced matches Err(error) ==> outcome == Err::<ReadOutcome, Error>(error)
            },
        before.spec_deadline() is Some ==> after.spec_deadline() == before.spec_deadline(),
        before.spec_deadline() is None && outcome == Ok::<ReadOutcome, Error>(
            ReadOutcome::Unfinished,
        ) ==> after.spec_deadline() == match before.spec_assembly() {
            Some(limit) => Some(now + limit),
            None => None,
        },
        after.spec_assembly() == before.spec_assembly(),
{
}

/// A handshake is opened by whatever the client's side begins with: its opening message goes
/// from its passing identity to the router, in one frame, and its state is kept for the
/// answer. What that side refuses is refused in its words.
pub proof fn law_handshake_is_opened<H, A, B, S, W>(
    router: PeerBundle,
    wire_version: u8,
    begin: S,
    begun: Begun<H, A>,
    write: W,
    outcome: Result<(ClientHandshake<H>, Vec<u8>), Error>,
) where
    S: FnOnce(&PeerBundle) -> Begun<H, A>,
    W: FnOnce(&RecordHeader, HandshakeRecord<A, B>) -> Vec<u8>,

    requires
        forall|result: Begun<H, A>| #[trigger]
            call_ensures(begin, (&router,), result) ==> result == begun,
        ClientHandshake::<H>::starts(router, wire_version, begin, write, outcome),
    ensures
        begun matches Err(text) ==> outcome == Err::<(ClientHandshake<H>, Vec<u8>), Error>(
            Error::Rejected(text),
        ),
        begun matches Ok((state, sender, opening)) ==> exists|
            header: RecordHeader,
            encoded: Result<Vec<u8>, Error>,
        |
            {
                &&& header.version == wire_version
                &&& header.record_type is Handshake
                &&& header.route.sender@ == sender@
                &&& header.route.recipient@ == router.qid@
                &&& #[trigger] encodes(
                    header,
                    HandshakeRecord::<A, B>::Ik1(opening),
                    write,
                    encoded,
                )
                &&& encoded matches Ok(frame) ==> (outcome matches Ok((client, request))
                    && client.state() == state && request == frame)
                &&& encoded matches Err(error) ==> outcome == Err::<
                    (ClientHandshake<H>, Vec<u8>),
                    Error,
                >(error)
            },
{
}

/// A request is answered exactly if it is an opening message for this identity; one for
/// another is for the wrong recipient, and any other record is not the one that is due.
pub proof fn law_openings_for_the_router_are_answered<A, B, H, R, P, W, C>(
    identity: Seq<u8>,
    request: Seq<u8>,
    wire_version: u8,
    read: R,
    header: RecordHeader,
    record: HandshakeRecord<A, B>,
    respond: P,
    write: W,
    complete: C,
    outcome: Result<(Vec<u8>, SecureReceiver, SecureSender), Error>,
) where
    R: FnOnce(&[u8]) -> Decoded<A, B>,
    P: FnOnce(&RouteHeader, A) -> Answered<H, B>,
    W: FnOnce(&RecordHeader, HandshakeRecord<A, B>) -> Vec<u8>,
    C: FnOnce(H) -> Agreed,

    requires
        forall|bytes: &[u8], decoded: Decoded<A, B>|
            bytes@ == request.skip(4) && #[trigger] call_ensures(read, (bytes,), decoded)
                ==> decoded == Ok::<_, String>((header, record, 0usize)),
        header.version == wire_version,
        header.record_type is Handshake,
        accepted_by(identity, request, wire_version, read, respond, write, complete, outcome),
    ensures
        header.route.recipient@ != identity ==> outcome == Err::<
            (Vec<u8>, SecureReceiver, SecureSender),
            Error,
        >(Error::WrongRecipient),
        header.route.recipient@ == identity && !(record is Ik1) ==> outcome == Err::<
            (Vec<u8>, SecureReceiver, SecureSender),
            Error,
        >(Error::UnexpectedHandshake),
        header.route.recipient@ == identity && record is Ik1 ==> answered_by(
            header.route,
            record->Ik1_0,
            wire_version,
            respond,
            write,
            complete,
            outcome,
        ),
{
}

/// A client is set up by whatever answering message its side of the handshake takes: it gets
/// the two keys, the inbound one first, and confirms. A connection that ends first, any other
/// record and what its side refuses end the set-up, each with its own reason.
pub proof fn law_client_is_set_up_by_the_answer<H, A, B, R, C, T>(
    state: H,
    response: Seq<u8>,
    wire_version: u8,
    read: R,
    header: RecordHeader,
    record: HandshakeRecord<A, B>,
    complete: C,
    agreed: Agreed,
    tag: T,
    outcome: Result<(SecureReceiver, SecureSender, Vec<u8>), Error>,
    ended: Result<(SecureReceiver, SecureSender, Vec<u8>), Error>,
) where
    R: FnOnce(&[u8]) -> Decoded<A, B>,
    C: FnOnce(H, RouteHeader, B) -> Agreed,
    T: FnOnce(&SessionKey, u64, &[u8]) -> [u8; AUTH_SIZE],

    requires
        forall|bytes: &[u8], decoded: Decoded<A, B>|
            bytes@ == response.skip(4) && #[trigger] call_ensures(read, (bytes,), decoded)
                ==> decoded == Ok::<_, String>((header, record, 0usize)),
        header.version == wire_version,
        header.record_type is Handshake,
        forall|answer: B, result: Agreed| #[trigger]
            call_ensures(complete, (state, header.route, answer), result) ==> result == agreed,
        connects(state, Some(response), wire_version, read, complete, tag, outcome),
        connects(state, None, wire_version, read, complete, tag, ended),
    ensures
        ended == Err::<(SecureReceiver, SecureSender, Vec<u8>), Error>(Error::RouterDisconnected),
        Error::RouterDisconnected.spec_kind() == ErrorKind::UnexpectedEof,
        record is Ik2 ==> match agreed {
            Ok((rx, tx)) => connected(rx, tx, tag, outcome),
            Err(text) => outcome == Err::<(SecureReceiver, SecureSender, Vec<u8>), Error>(
                Error::Rejected(text),
            ),
        },
        !(record is Ik2) ==> outcome == Err::<(SecureReceiver, SecureSender, Vec<u8>), Error>(
            Error::UnexpectedHandshake,
        ),
{
}

/// Identities are compared byte by byte, all of them, and are written in hexadecimal with two
/// digits a byte, the high half first.
pub proof fn law_identities_count_byte_by_byte(a: Qid, b: Qid, i: int)
    ensures
        a@ == a.bytes@,
        a.eq_spec(&b) <==> a.bytes@ == b.bytes@,
        qid_views(seq![a, b]) == seq![a.bytes@, b.bytes@],
        hex_text(a@).len() == 2 * a.bytes@.len(),
        0 <= i < a.bytes@.len() ==> {
            &&& hex_value(hex_text(a@)[2 * i]) == Some(a.bytes@[i] as int / 16)
            &&& hex_value(hex_text(a@)[2 * i + 1]) == Some(a.bytes@[i] as int % 16)
            &&& !('A' <= hex_text(a@)[2 * i] <= 'F')
            &&& !('A' <= hex_text(a@)[2 * i + 1] <= 'F')
        },
{
    assert(qid_views(seq![a, b]) =~= seq![a.bytes@, b.bytes@]);
    assert forall|n: int| 0 <= n < 16 implies hex_value(#[trigger] hex_digit(n)) == Some(n) && !(
    'A' <= hex_digit(n) <= 'F') by {}
    if 0 <= i < a.bytes@.len() {
        let byte = a.bytes@[i] as int;
        assert(hex_text(a@)[2 * i] == hex_digit(byte / 16));
        assert(hex_text(a@)[2 * i + 1] == hex_digit(byte % 16));
    }
}

/// A reading that finds bytes of a frame left has its deadline from the start, and one that
/// finds none only from its first byte. A write begins exactly while none is cut.
pub proof fn law_readings_and_writes_begin<W>(
    received: Seq<u8>,
    assembly: u64,
    now: int,
    writer: SocketWriter<W>,
)
    ensures
        received.len() == 0 ==> FrameRead::first_deadline(received, Some(assembly), now) is None,
        received.len() > 0 ==> FrameRead::first_deadline(received, Some(assembly), now) == Some(
            now + assembly,
        ),
        FrameRead::first_deadline(received, None, now) is None,
        writer.begins() is Ok <==> writer.spec_writable(),
        writer.begins() matches Err(error) ==> error == Error::WriterBroken,
{
}

} // verus!
