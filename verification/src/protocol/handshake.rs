//! The handshake that opens a transport: two length-delimited records, after which both
//! sides hold a key for each direction.
use vstd::prelude::*;

use crate::error::{invalid_data, Error, ErrorKind};
use crate::protocol::frame::{handed_out, is_frame, progress, Frame};
use crate::protocol::record::{
    HandshakeRecord, PeerBundle, RecordHeader, RecordType, RouteHeader,
};
use crate::protocol::secure::{
    delivered, law_sealed_is_delivered, sealed, SecureReceiver, SecureSender, SessionKey,
};
use crate::protocol::wire::{
    le32, le32_round_trip, push_le32, PacketKind, AUTH_SIZE, FRAME_HEADER_SIZE, MAX_FRAME_SIZE,
    MAX_RECORD_SIZE,
};
use crate::qid::Qid;

verus! {

/// What a codec makes of handshake bytes: the header, the record and how many bytes
/// follow them, or its complaint.
pub type Decoded<A, B> = Result<(RecordHeader, HandshakeRecord<A, B>, usize), String>;

/// What is accepted of what a codec made of handshake bytes: a handshake record of the
/// wire version in use, with nothing behind it.
pub open spec fn checked_handshake<A, B>(decoded: Decoded<A, B>, wire_version: u8) -> Result<
    (RecordHeader, HandshakeRecord<A, B>),
    Error,
> {
    match decoded {
        Err(text) => Err(Error::Rejected(text)),
        Ok((header, record, trailing)) => if header.version == wire_version
            && header.record_type == RecordType::Handshake && trailing == 0 {
            Ok((header, record))
        } else {
            Err(Error::InvalidHandshake)
        },
    }
}

/// Reads a handshake record and checks its header. `read` is the codec.
pub fn decode_handshake<A, B, R>(bytes: &[u8], wire_version: u8, read: R) -> (outcome: Result<
    (RecordHeader, HandshakeRecord<A, B>),
    Error,
>) where R: FnOnce(&[u8]) -> Decoded<A, B>
    requires
        call_requires(read, (bytes,)),
    ensures
        exists|decoded: Decoded<A, B>| #[trigger]
            call_ensures(read, (bytes,), decoded) && outcome == checked_handshake(
                decoded,
                wire_version,
            ),
{
    let decoded = read(bytes);
    let ghost seen = decoded;
    assert(call_ensures(read, (bytes,), seen));
    match decoded {
        Err(text) => Err(invalid_data(text)),
        Ok((header, record, trailing)) => {
            if header.version != wire_version || header.record_type != RecordType::Handshake
                || trailing != 0 {
                return Err(Error::InvalidHandshake);
            }
            Ok((header, record))
        },
    }
}

/// The frame that a handshake record is sent in: `write` is the codec, which writes the
/// header and then the record. A record that is larger than a frame carries is refused.
pub open spec fn encodes<A, B, W>(
    header: RecordHeader,
    handshake: HandshakeRecord<A, B>,
    write: W,
    outcome: Result<Vec<u8>, Error>,
) -> bool where W: FnOnce(&RecordHeader, HandshakeRecord<A, B>) -> Vec<u8> {
    exists|written: Vec<u8>| #[trigger]
        call_ensures(write, (&header, handshake), written) && if written@.len() > MAX_FRAME_SIZE {
            outcome == Err::<Vec<u8>, Error>(Error::PayloadTooLarge)
        } else {
            &&& outcome matches Ok(frame)
            &&& frame@ == le32(written@.len() as int) + written@
            &&& is_frame(frame@)
            &&& frame@.skip(FRAME_HEADER_SIZE as int) == written@
        }
}

/// Puts a handshake record behind its header into a frame. `write` is the codec.
pub fn encode_handshake<A, B, W>(
    header: &RecordHeader,
    handshake: HandshakeRecord<A, B>,
    write: W,
) -> (outcome: Result<Vec<u8>, Error>) where
    W: FnOnce(&RecordHeader, HandshakeRecord<A, B>) -> Vec<u8>,

    requires
        call_requires(write, (header, handshake)),
    ensures
        encodes(*header, handshake, write, outcome),
{
    let written = write(header, handshake);
    assert(call_ensures(write, (header, handshake), written));
    let length: usize = written.len();
    if length > MAX_FRAME_SIZE {
        return Err(Error::PayloadTooLarge);
    }
    let mut frame: Vec<u8> = Vec::with_capacity(FRAME_HEADER_SIZE + length);
    push_le32(&mut frame, length as u32);
    frame.extend_from_slice(written.as_slice());
    proof {
        let whole = le32(length as int) + written@;
        assert(frame@ =~= whole);
        le32_round_trip(length as int, Seq::empty());
        assert(forall|i: int| 0 <= i < 4 ==> whole[i] == le32(length as int)[i]);
        assert(whole.skip(FRAME_HEADER_SIZE as int) =~= written@);
    }
    Ok(frame)
}

/// Whether a codec reads back what it writes, with nothing behind it.
pub open spec fn reads_back<A, B, W, R>(write: W, read: R) -> bool where
    W: FnOnce(&RecordHeader, HandshakeRecord<A, B>) -> Vec<u8>,
    R: FnOnce(&[u8]) -> Decoded<A, B>,
 {
    forall|
        header: RecordHeader,
        record: HandshakeRecord<A, B>,
        written: Vec<u8>,
        bytes: &[u8],
        decoded: Decoded<A, B>,
    |
        #[trigger] call_ensures(write, (&header, record), written) && bytes@ == written@
            && #[trigger] call_ensures(read, (bytes,), decoded) ==> {
            &&& decoded matches Ok((read_header, read_record, trailing))
            &&& read_header.same_as(header)
            &&& read_record == record
            &&& trailing == 0
        }
}

/// What is sent in a handshake arrives: where the codec reads back what it writes, a
/// handshake record that was put into a frame is exactly one frame, and decoding what the
/// frame carries gives back the header and the record. Only one that is too large is
/// refused, as invalid input.
pub proof fn law_handshake_arrives<A, B, W, R>(
    header: RecordHeader,
    record: HandshakeRecord<A, B>,
    wire_version: u8,
    write: W,
    read: R,
    outcome: Result<Vec<u8>, Error>,
) where
    W: FnOnce(&RecordHeader, HandshakeRecord<A, B>) -> Vec<u8>,
    R: FnOnce(&[u8]) -> Decoded<A, B>,

    requires
        header.version == wire_version,
        header.record_type == RecordType::Handshake,
        reads_back(write, read),
        encodes(header, record, write, outcome),
    ensures
        outcome matches Err(error) ==> error == Error::PayloadTooLarge && error.spec_kind()
            == ErrorKind::InvalidInput,
        outcome matches Ok(frame) ==> {
            &&& frame@.len() <= FRAME_HEADER_SIZE + MAX_FRAME_SIZE
            &&& progress(frame@) is Whole
            &&& handed_out(Seq::empty(), seq![frame@]) == seq![frame@]
            &&& forall|bytes: &[u8], decoded: Decoded<A, B>|
                bytes@ == frame@.skip(FRAME_HEADER_SIZE as int) && #[trigger] call_ensures(
                    read,
                    (bytes,),
                    decoded,
                ) ==> {
                    &&& checked_handshake(decoded, wire_version) matches Ok((
                        read_header,
                        read_record,
                    ))
                    &&& read_header.same_as(header)
                    &&& read_record == record
                }
        },
{
    if let Ok(frame) = outcome {
        reveal_with_fuel(handed_out, 2);
        assert(Seq::<u8>::empty() + frame@ =~= frame@);
        assert(handed_out(Seq::empty(), seq![frame@]) =~= seq![frame@]);
    }
}

/// Whether a header is that of a handshake record of this wire version between these two.
pub open spec fn handshake_header(
    header: RecordHeader,
    wire_version: u8,
    sender: Seq<u8>,
    recipient: Seq<u8>,
) -> bool {
    &&& header.version == wire_version
    &&& header.record_type == RecordType::Handshake
    &&& header.route.sender@ == sender
    &&& header.route.recipient@ == recipient
}

/// What the side that opens a handshake begins with: its state, the passing identity that
/// it opens the handshake as, and the opening message, or its complaint.
pub type Begun<H, A> = Result<(H, Qid, A), String>;

/// What the side that answers a handshake made of the opening message: its state and its
/// own message, or its complaint.
pub type Answered<H, B> = Result<(H, B), String>;

/// The two keys that a handshake ends in, that of the inbound and that of the outbound
/// direction, or the complaint of the side that failed.
pub type Agreed = Result<(SessionKey, SessionKey), String>;

/// Both ends of a fresh transport count from zero.
pub open spec fn fresh(
    receiver: SecureReceiver,
    sender: SecureSender,
    rx: SessionKey,
    tx: SessionKey,
) -> bool {
    &&& receiver.spec_key() == rx
    &&& receiver.spec_counter() == Some(0u64)
    &&& sender.spec_key() == tx
    &&& sender.spec_counter() == 0
}

/// The client's side of a handshake that is under way.
pub struct ClientHandshake<H> {
    handshake: H,
}

impl<H> ClientHandshake<H> {
    /// The state of the handshake.
    pub closed spec fn state(self) -> H {
        self.handshake
    }

    /// What comes of opening a handshake with a router.
    pub open spec fn starts<A, B, S, W>(
        router: PeerBundle,
        wire_version: u8,
        begin: S,
        write: W,
        outcome: Result<(Self, Vec<u8>), Error>,
    ) -> bool where
        S: FnOnce(&PeerBundle) -> Begun<H, A>,
        W: FnOnce(&RecordHeader, HandshakeRecord<A, B>) -> Vec<u8>,
     {
        exists|begun: Begun<H, A>| #[trigger]
            call_ensures(begin, (&router,), begun) && match begun {
                Err(text) => outcome == Err::<(Self, Vec<u8>), Error>(Error::Rejected(text)),
                Ok((state, sender, opening)) => exists|
                    header: RecordHeader,
                    encoded: Result<Vec<u8>, Error>,
                |
                    {
                        &&& handshake_header(header, wire_version, sender@, router.qid@)
                        &&& #[trigger] encodes(header, HandshakeRecord::Ik1(opening), write, encoded)
                        &&& match encoded {
                            Err(error) => outcome == Err::<(Self, Vec<u8>), Error>(error),
                            Ok(frame) => {
                                &&& outcome matches Ok((client, request))
                                &&& client.state() == state
                                &&& request == frame
                            },
                        }
                    },
            }
    }

    /// Opens a handshake with a router. `begin` checks the router's bundle, makes a
    /// passing identity and gives the opening message; `write` is the codec. The request
    /// is a handshake record with that message, from the passing identity to the router.
    pub fn start<A, B, S, W>(router: &PeerBundle, wire_version: u8, begin: S, write: W) -> (outcome:
        Result<(Self, Vec<u8>), Error>) where
        S: FnOnce(&PeerBundle) -> Begun<H, A>,
        W: FnOnce(&RecordHeader, HandshakeRecord<A, B>) -> Vec<u8>,

        requires
            call_requires(begin, (router,)),
            forall|header: &RecordHeader, record: HandshakeRecord<A, B>|
                call_requires(write, (header, record)),
        ensures
            Self::starts(*router, wire_version, begin, write, outcome),
            exists|begun: Begun<H, A>| #[trigger]
                call_ensures(begin, (router,), begun) && match begun {
                    Err(text) => outcome == Err::<(Self, Vec<u8>), Error>(Error::Rejected(text)),
                    Ok((state, sender, opening)) => exists|
                        header: RecordHeader,
                        encoded: Result<Vec<u8>, Error>,
                    |
                        {
                            &&& handshake_header(header, wire_version, sender@, router.qid@)
                            &&& #[trigger] encodes(
                                header,
                                HandshakeRecord::Ik1(opening),
                                write,
                                encoded,
                            )
                            &&& match encoded {
                                Err(error) => outcome == Err::<(Self, Vec<u8>), Error>(error),
                                Ok(frame) => {
                                    &&& outcome matches Ok((client, request))
                                    &&& client.state() == state
                                    &&& request == frame
                                },
                            }
                        },
                },
    {
        let begun = begin(router);
        let ghost seen = begun;
        assert(call_ensures(begin, (router,), seen));
        match begun {
            Err(text) => Err(invalid_data(text)),
            Ok((handshake, sender, opening)) => {
                let header = RecordHeader {
                    version: wire_version,
                    route: RouteHeader { sender, recipient: router.qid.clone() },
                    record_type: RecordType::Handshake,
                };
                let encoded = encode_handshake(&header, HandshakeRecord::Ik1(opening), write);
                let ghost request = encoded;
                assert(encodes(header, HandshakeRecord::Ik1(opening), write, request));
                match encoded {
                    Err(error) => Err(error),
                    Ok(request) => Ok((ClientHandshake { handshake }, request)),
                }
            },
        }
    }

    /// Ends the handshake with the router's answer. `read` is the codec; `complete` takes
    /// the answer, with the route that it came along, and gives the keys.
    pub fn finish<A, B, R, C>(
        self,
        response: &Frame,
        wire_version: u8,
        read: R,
        complete: C,
    ) -> (outcome: Result<(SecureReceiver, SecureSender), Error>) where
        R: FnOnce(&[u8]) -> Decoded<A, B>,
        C: FnOnce(H, RouteHeader, B) -> Agreed,

        requires
            response@.len() >= FRAME_HEADER_SIZE,
            forall|bytes: &[u8]| call_requires(read, (bytes,)),
            forall|state: H, route: RouteHeader, answer: B|
                call_requires(complete, (state, route, answer)),
        ensures
            finished_by(self.state(), response@, wire_version, read, complete, outcome),
            outcome matches Err(error) ==> error.spec_kind() == ErrorKind::InvalidData,
    {
        let bytes = response.payload();
        let (header, record) = match decode_handshake(bytes, wire_version, read) {
            Ok(decoded) => decoded,
            Err(error) => return Err(error),
        };
        let answer = match record {
            HandshakeRecord::Ik2(answer) => answer,
            _ => return Err(Error::UnexpectedHandshake),
        };
        let ghost route = header.route;
        let agreed = complete(self.handshake, header.route, answer);
        let ghost seen = agreed;
        assert(call_ensures(complete, (self.state(), route, answer), seen));
        match agreed {
            Err(text) => Err(invalid_data(text)),
            Ok((rx, tx)) => Ok((SecureReceiver::new(rx, 0), SecureSender::new(tx, 0))),
        }
    }
}

/// The outcome of a handshake on the client's side: the answer is an answering message, and
/// `complete` gives the keys.
pub open spec fn finished_by<H, A, B, R, C>(
    state: H,
    response: Seq<u8>,
    wire_version: u8,
    read: R,
    complete: C,
    outcome: Result<(SecureReceiver, SecureSender), Error>,
) -> bool where R: FnOnce(&[u8]) -> Decoded<A, B>, C: FnOnce(H, RouteHeader, B) -> Agreed {
    exists|bytes: &[u8], decoded: Decoded<A, B>|
        {
            &&& bytes@ == response.skip(FRAME_HEADER_SIZE as int)
            &&& #[trigger] call_ensures(read, (bytes,), decoded)
            &&& match checked_handshake(decoded, wire_version) {
                Err(error) => outcome == Err::<(SecureReceiver, SecureSender), Error>(error),
                Ok((header, HandshakeRecord::Ik2(answer))) => exists|agreed: Agreed| #[trigger]
                    call_ensures(complete, (state, header.route, answer), agreed) && match agreed {
                        Err(text) => outcome == Err::<(SecureReceiver, SecureSender), Error>(
                            Error::Rejected(text),
                        ),
                        Ok((rx, tx)) => outcome matches Ok((receiver, sender)) && fresh(
                            receiver,
                            sender,
                            rx,
                            tx,
                        ),
                    },
                Ok(_) => outcome == Err::<(SecureReceiver, SecureSender), Error>(
                    Error::UnexpectedHandshake,
                ),
            }
        }
}

/// The outcome of a handshake on the router's side: what the codec makes of the request is an
/// opening message for this identity, and is answered.
pub open spec fn accepted_by<A, B, H, R, P, W, C>(
    identity: Seq<u8>,
    request: Seq<u8>,
    wire_version: u8,
    read: R,
    respond: P,
    write: W,
    complete: C,
    outcome: Result<(Vec<u8>, SecureReceiver, SecureSender), Error>,
) -> bool where
    R: FnOnce(&[u8]) -> Decoded<A, B>,
    P: FnOnce(&RouteHeader, A) -> Answered<H, B>,
    W: FnOnce(&RecordHeader, HandshakeRecord<A, B>) -> Vec<u8>,
    C: FnOnce(H) -> Agreed,
 {
    exists|bytes: &[u8], decoded: Decoded<A, B>|
        {
            &&& bytes@ == request.skip(FRAME_HEADER_SIZE as int)
            &&& #[trigger] call_ensures(read, (bytes,), decoded)
            &&& match checked_handshake(decoded, wire_version) {
                Err(error) => accept_failed(outcome, error),
                Ok((header, record)) => if header.route.recipient@ != identity {
                    accept_failed(outcome, Error::WrongRecipient)
                } else {
                    match record {
                        HandshakeRecord::Ik1(opening) => answered_by(
                            header.route,
                            opening,
                            wire_version,
                            respond,
                            write,
                            complete,
                            outcome,
                        ),
                        _ => accept_failed(outcome, Error::UnexpectedHandshake),
                    }
                },
            }
        }
}

/// Answers the handshake of a client. `read` and `write` are the codec; `respond` takes the
/// opening message, with the route that it came along, and gives the message that answers
/// it; `complete` gives the keys. The answer is a handshake record with that message, along
/// the way back.
pub fn accept_handshake<A, B, H, R, P, W, C>(
    identity: &Qid,
    request: &Frame,
    wire_version: u8,
    read: R,
    respond: P,
    write: W,
    complete: C,
) -> (outcome: Result<(Vec<u8>, SecureReceiver, SecureSender), Error>) where
    R: FnOnce(&[u8]) -> Decoded<A, B>,
    P: FnOnce(&RouteHeader, A) -> Answered<H, B>,
    W: FnOnce(&RecordHeader, HandshakeRecord<A, B>) -> Vec<u8>,
    C: FnOnce(H) -> Agreed,

    requires
        request@.len() >= FRAME_HEADER_SIZE,
        forall|bytes: &[u8]| call_requires(read, (bytes,)),
        forall|route: &RouteHeader, opening: A| call_requires(respond, (route, opening)),
        forall|header: &RecordHeader, record: HandshakeRecord<A, B>|
            call_requires(write, (header, record)),
        forall|state: H| call_requires(complete, (state,)),
    ensures
        accepted_by(identity@, request@, wire_version, read, respond, write, complete, outcome),
        exists|bytes: &[u8], decoded: Decoded<A, B>|
            {
                &&& bytes@ == request@.skip(FRAME_HEADER_SIZE as int)
                &&& #[trigger] call_ensures(read, (bytes,), decoded)
                &&& match checked_handshake(decoded, wire_version) {
                    Err(error) => accept_failed(outcome, error),
                    Ok((header, record)) => if header.route.recipient@ != identity@ {
                        accept_failed(outcome, Error::WrongRecipient)
                    } else {
                        match record {
                            HandshakeRecord::Ik1(opening) => answered_by(
                                header.route,
                                opening,
                                wire_version,
                                respond,
                                write,
                                complete,
                                outcome,
                            ),
                            _ => accept_failed(outcome, Error::UnexpectedHandshake),
                        }
                    },
                }
            },
{
    let bytes = request.payload();
    let (header, record) = match decode_handshake(bytes, wire_version, read) {
        Ok(decoded) => decoded,
        Err(error) => return Err(error),
    };
    if header.route.recipient != *identity {
        return Err(Error::WrongRecipient);
    }
    let opening = match record {
        HandshakeRecord::Ik1(opening) => opening,
        _ => return Err(Error::UnexpectedHandshake),
    };
    let answered = respond(&header.route, opening);
    let ghost seen = answered;
    assert(call_ensures(respond, (&header.route, opening), seen));
    let (state, answer) = match answered {
        Err(text) => return Err(invalid_data(text)),
        Ok(answered) => answered,
    };
    let back = RecordHeader {
        version: wire_version,
        route: RouteHeader {
            sender: header.route.recipient.clone(),
            recipient: header.route.sender.clone(),
        },
        record_type: RecordType::Handshake,
    };
    let encoded = encode_handshake(&back, HandshakeRecord::Ik2(answer), write);
    let ghost sent = encoded;
    assert(encodes(back, HandshakeRecord::Ik2(answer), write, sent));
    let response = match encoded {
        Err(error) => return Err(error),
        Ok(response) => response,
    };
    let agreed = complete(state);
    let ghost keys = agreed;
    assert(call_ensures(complete, (state,), keys));
    match agreed {
        Err(text) => Err(invalid_data(text)),
        Ok((rx, tx)) => Ok((response, SecureReceiver::new(rx, 0), SecureSender::new(tx, 0))),
    }
}

/// A handshake was refused for this reason.
pub open spec fn accept_failed(
    outcome: Result<(Vec<u8>, SecureReceiver, SecureSender), Error>,
    error: Error,
) -> bool {
    outcome == Err::<(Vec<u8>, SecureReceiver, SecureSender), Error>(error)
}

/// The outcome of a handshake that was opened for this identity: what `respond` makes of
/// it goes back to where it came from, and `complete` gives the keys.
pub open spec fn answered_by<A, B, H, P, W, C>(
    route: RouteHeader,
    opening: A,
    wire_version: u8,
    respond: P,
    write: W,
    complete: C,
    outcome: Result<(Vec<u8>, SecureReceiver, SecureSender), Error>,
) -> bool where
    P: FnOnce(&RouteHeader, A) -> Answered<H, B>,
    W: FnOnce(&RecordHeader, HandshakeRecord<A, B>) -> Vec<u8>,
    C: FnOnce(H) -> Agreed,
 {
    exists|answered: Answered<H, B>| #[trigger]
        call_ensures(respond, (&route, opening), answered) && match answered {
            Err(text) => accept_failed(outcome, Error::Rejected(text)),
            Ok((state, answer)) => exists|header: RecordHeader, encoded: Result<Vec<u8>, Error>|
                {
                    &&& handshake_header(header, wire_version, route.recipient@, route.sender@)
                    &&& #[trigger] encodes(header, HandshakeRecord::Ik2(answer), write, encoded)
                    &&& match encoded {
                        Err(error) => accept_failed(outcome, error),
                        Ok(frame) => completed_by(state, frame, complete, outcome),
                    }
                },
        }
}

/// The outcome of a handshake that was answered with this frame.
pub open spec fn completed_by<H, C>(
    state: H,
    frame: Vec<u8>,
    complete: C,
    outcome: Result<(Vec<u8>, SecureReceiver, SecureSender), Error>,
) -> bool where C: FnOnce(H) -> Agreed {
    exists|agreed: Agreed| #[trigger]
        call_ensures(complete, (state,), agreed) && match agreed {
            Err(text) => accept_failed(outcome, Error::Rejected(text)),
            Ok((rx, tx)) => {
                &&& outcome matches Ok((response, receiver, sender))
                &&& response == frame
                &&& fresh(receiver, sender, rx, tx)
            },
        }
}

/// A handshake opens both directions: where the two sides agree on the keys, each delivers
/// what the other seals, every packet once and in order, from the first one on.
pub proof fn law_handshake_opens_both_directions(
    mac: spec_fn(SessionKey, u64, Seq<u8>) -> Seq<u8>,
    client: (SecureReceiver, SecureSender),
    router: (SecureReceiver, SecureSender),
    to_client: SessionKey,
    to_router: SessionKey,
    requests: Seq<(PacketKind, Seq<u8>)>,
    answers: Seq<(PacketKind, Seq<u8>)>,
)
    requires
        fresh(client.0, client.1, to_client, to_router),
        fresh(router.0, router.1, to_router, to_client),
        forall|key: SessionKey, counter: u64, bytes: Seq<u8>|
            (#[trigger] mac(key, counter, bytes)).len() == AUTH_SIZE,
        forall|i: int|
            0 <= i < requests.len() ==> (#[trigger] requests[i]).1.len() <= MAX_RECORD_SIZE,
        forall|i: int|
            0 <= i < answers.len() ==> (#[trigger] answers[i]).1.len() <= MAX_RECORD_SIZE,
        requests.len() <= u64::MAX,
        answers.len() <= u64::MAX,
    ensures
        delivered(
            mac,
            router.0.spec_key(),
            router.0.spec_counter(),
            sealed(mac, client.1.spec_key(), client.1.spec_counter() as int, requests),
        ) == requests,
        delivered(
            mac,
            client.0.spec_key(),
            client.0.spec_counter(),
            sealed(mac, router.1.spec_key(), router.1.spec_counter() as int, answers),
        ) == answers,
{
    lemma_all_delivered(mac, to_router, requests);
    lemma_all_delivered(mac, to_client, answers);
}

/// A handshake that the router accepted comes to its end at the client too, and opens both
/// directions from the first packet on. The codec has to read back what it writes, and the
/// client has to make of the router's answer the keys that the router has. `header` and
/// `answer` are what the router sent in `response`.
pub proof fn law_accepted_handshake_finishes<H, A, B, W, R, C>(
    mac: spec_fn(SessionKey, u64, Seq<u8>) -> Seq<u8>,
    header: RecordHeader,
    answer: B,
    wire_version: u8,
    write: W,
    response: Vec<u8>,
    router: (SecureReceiver, SecureSender),
    to_client: SessionKey,
    to_router: SessionKey,
    state: H,
    read: R,
    complete: C,
    outcome: Result<(SecureReceiver, SecureSender), Error>,
    requests: Seq<(PacketKind, Seq<u8>)>,
    answers: Seq<(PacketKind, Seq<u8>)>,
) where
    W: FnOnce(&RecordHeader, HandshakeRecord<A, B>) -> Vec<u8>,
    R: FnOnce(&[u8]) -> Decoded<A, B>,
    C: FnOnce(H, RouteHeader, B) -> Agreed,

    requires
        header.version == wire_version,
        header.record_type == RecordType::Handshake,
        encodes(header, HandshakeRecord::<A, B>::Ik2(answer), write, Ok(response)),
        fresh(router.0, router.1, to_router, to_client),
        reads_back(write, read),
        forall|route: RouteHeader, agreed: Agreed|
            route.sender@ == header.route.sender@ && route.recipient@ == header.route.recipient@
                && #[trigger] call_ensures(complete, (state, route, answer), agreed) ==> agreed
                == Ok::<(SessionKey, SessionKey), String>((to_client, to_router)),
        finished_by(state, response@, wire_version, read, complete, outcome),
        forall|key: SessionKey, counter: u64, bytes: Seq<u8>|
            (#[trigger] mac(key, counter, bytes)).len() == AUTH_SIZE,
        forall|i: int|
            0 <= i < requests.len() ==> (#[trigger] requests[i]).1.len() <= MAX_RECORD_SIZE,
        forall|i: int|
            0 <= i < answers.len() ==> (#[trigger] answers[i]).1.len() <= MAX_RECORD_SIZE,
        requests.len() <= u64::MAX,
        answers.len() <= u64::MAX,
    ensures
        outcome matches Ok((receiver, sender)) && fresh(receiver, sender, to_client, to_router) && {
            &&& delivered(
                mac,
                router.0.spec_key(),
                router.0.spec_counter(),
                sealed(mac, sender.spec_key(), sender.spec_counter() as int, requests),
            ) == requests
            &&& delivered(
                mac,
                receiver.spec_key(),
                receiver.spec_counter(),
                sealed(mac, router.1.spec_key(), router.1.spec_counter() as int, answers),
            ) == answers
        },
{
    let (bytes, decoded) = choose|bytes: &[u8], decoded: Decoded<A, B>|
        {
            &&& bytes@ == response@.skip(FRAME_HEADER_SIZE as int)
            &&& #[trigger] call_ensures(read, (bytes,), decoded)
            &&& match checked_handshake(decoded, wire_version) {
                Err(error) => outcome == Err::<(SecureReceiver, SecureSender), Error>(error),
                Ok((header, HandshakeRecord::Ik2(answer))) => exists|agreed: Agreed| #[trigger]
                    call_ensures(complete, (state, header.route, answer), agreed) && match agreed {
                        Err(text) => outcome == Err::<(SecureReceiver, SecureSender), Error>(
                            Error::Rejected(text),
                        ),
                        Ok((rx, tx)) => outcome matches Ok((receiver, sender)) && fresh(
                            receiver,
                            sender,
                            rx,
                            tx,
                        ),
                    },
                Ok(_) => outcome == Err::<(SecureReceiver, SecureSender), Error>(
                    Error::UnexpectedHandshake,
                ),
            }
        };
    law_handshake_arrives(
        header,
        HandshakeRecord::<A, B>::Ik2(answer),
        wire_version,
        write,
        read,
        Ok(response),
    );
    assert(call_ensures(read, (bytes,), decoded));
    law_handshake_opens_both_directions(
        mac,
        outcome->Ok_0,
        router,
        to_client,
        to_router,
        requests,
        answers,
    );
}

proof fn lemma_all_delivered(
    mac: spec_fn(SessionKey, u64, Seq<u8>) -> Seq<u8>,
    key: SessionKey,
    packets: Seq<(PacketKind, Seq<u8>)>,
)
    requires
        forall|key: SessionKey, counter: u64, bytes: Seq<u8>|
            (#[trigger] mac(key, counter, bytes)).len() == AUTH_SIZE,
        forall|i: int|
            0 <= i < packets.len() ==> (#[trigger] packets[i]).1.len() <= MAX_RECORD_SIZE,
        packets.len() <= u64::MAX,
    ensures
        delivered(mac, key, Some(0), sealed(mac, key, 0, packets)) == packets,
{
    let rest = Seq::<Seq<u8>>::empty();
    law_sealed_is_delivered(mac, key, 0, packets, rest);
    assert(sealed(mac, key, 0, packets) + rest =~= sealed(mac, key, 0, packets));
    assert(packets + delivered(mac, key, Some(packets.len() as u64), rest) =~= packets);
}

/// Whether a packet is the empty confirmation by which a client shows that it derived the
/// transport keys.
pub fn is_confirmation(kind: PacketKind, payload: &[u8]) -> (confirms: bool)
    ensures
        confirms == (kind == PacketKind::Confirm && payload@.len() == 0),
{
    kind == PacketKind::Confirm && payload.len() == 0
}

} // verus!
