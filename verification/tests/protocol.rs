use ql_lab::error::{Error, ErrorKind};
use ql_lab::protocol::connection::{RouterAction, RouterConnection};
use ql_lab::protocol::frame::{Frame, FrameDecoder};
use ql_lab::protocol::handshake::{
    accept_handshake, decode_handshake, encode_handshake, is_confirmation, ClientHandshake, Decoded,
};
use ql_lab::protocol::record::{
    HandshakeRecord, PeerBundle, RecordHeader, RecordType, RouteHeader,
};
use ql_lab::protocol::secure::{SecureReceiver, SecureSender, SessionKey};
use ql_lab::protocol::wire::{
    PacketKind, AUTH_SIZE, FRAME_HEADER_SIZE, MAX_FRAME_SIZE, MAX_RECORD_SIZE,
    MAX_ROUTES_PER_CONNECTION,
};
use ql_lab::qid::Qid;
use sha2::{Digest, Sha256};

const VERSION: u8 = 2;

fn tag(key: &SessionKey, counter: u64, bytes: &[u8]) -> [u8; AUTH_SIZE] {
    let mut hasher = Sha256::new();
    hasher.update(&key.0);
    hasher.update(counter.to_le_bytes());
    hasher.update(bytes);
    let digest = hasher.finalize();
    let mut tag = [0; AUTH_SIZE];
    tag.copy_from_slice(&digest[..AUTH_SIZE]);
    tag
}

fn verify(key: &SessionKey, counter: u64, bytes: &[u8], given: &[u8]) -> bool {
    tag(key, counter, bytes) == given
}

fn key() -> SessionKey {
    SessionKey(vec![7; 32])
}

fn qid(byte: u8) -> Qid {
    Qid { bytes: vec![byte; 4] }
}

fn bundle(byte: u8) -> PeerBundle {
    PeerBundle { qid: qid(byte), name: format!("peer {byte}"), encoded: vec![byte; 4] }
}

/// version | sender (4) | recipient (4) | type
fn header_bytes(version: u8, sender: &Qid, recipient: &Qid, kind: u8) -> Vec<u8> {
    let mut bytes = vec![version];
    bytes.extend_from_slice(&sender.bytes);
    bytes.extend_from_slice(&recipient.bytes);
    bytes.push(kind);
    bytes
}

const HEADER_SIZE: usize = 10;

fn read_header(bytes: &[u8]) -> Result<RecordHeader, String> {
    if bytes.len() < HEADER_SIZE || bytes[9] > 1 {
        return Err("bad header".to_owned());
    }
    Ok(RecordHeader {
        version: bytes[0],
        route: RouteHeader {
            sender: Qid { bytes: bytes[1..5].to_vec() },
            recipient: Qid { bytes: bytes[5..9].to_vec() },
        },
        record_type: if bytes[9] == 0 { RecordType::Handshake } else { RecordType::Session },
    })
}

fn read_bundle(bytes: &[u8]) -> Result<(PeerBundle, usize), String> {
    if bytes.len() < 4 {
        return Err("short bundle".to_owned());
    }
    Ok((bundle(bytes[0]), bytes.len() - 4))
}

/// The body is one byte, 1 for the opening and 2 for the answer, and a value.
fn write_handshake(header: &RecordHeader, record: HandshakeRecord<u8, u8>) -> Vec<u8> {
    let kind = if header.record_type == RecordType::Handshake { 0 } else { 1 };
    let mut bytes =
        header_bytes(header.version, &header.route.sender, &header.route.recipient, kind);
    match record {
        HandshakeRecord::Ik1(value) => bytes.extend_from_slice(&[1, value]),
        HandshakeRecord::Ik2(value) => bytes.extend_from_slice(&[2, value]),
        HandshakeRecord::Other => bytes.extend_from_slice(&[3, 0]),
    }
    bytes
}

fn read_handshake(bytes: &[u8]) -> Decoded<u8, u8> {
    let header = read_header(bytes)?;
    let body = &bytes[HEADER_SIZE..];
    if body.len() < 2 {
        return Err("short handshake".to_owned());
    }
    let record = match body[0] {
        1 => HandshakeRecord::Ik1(body[1]),
        2 => HandshakeRecord::Ik2(body[1]),
        _ => HandshakeRecord::Other,
    };
    Ok((header, record, body.len() - 2))
}

fn frame_of(payload: &[u8]) -> Frame {
    let mut bytes = (payload.len() as u32).to_le_bytes().to_vec();
    bytes.extend_from_slice(payload);
    Frame(bytes)
}

#[test]
fn fragmented_frames_and_truncated_input_are_distinguished() {
    let payload = b"frame";
    let mut encoded = Vec::new();
    encoded.extend_from_slice(&(payload.len() as u32).to_le_bytes());
    encoded.extend_from_slice(payload);

    let mut decoder = FrameDecoder::new();
    let mut decoded = None;
    for byte in encoded {
        decoder.buffer()[0] = byte;
        decoded = decoder.advance(1).unwrap().or(decoded);
    }
    assert_eq!(decoded.unwrap().payload(), payload);
    assert!(decoder.finish().is_ok());

    decoder.buffer()[0] = 1;
    decoder.advance(1).unwrap();
    assert_eq!(decoder.finish().unwrap_err().kind(), ErrorKind::UnexpectedEof);

    let mut decoder = FrameDecoder::new();
    decoder.buffer().copy_from_slice(&((MAX_FRAME_SIZE + 1) as u32).to_le_bytes());
    assert!(decoder.advance(FRAME_HEADER_SIZE).is_err());
}

#[test]
fn secure_frames_authenticate_all_bytes_and_preserve_nonce_after_size_errors() {
    let mut sender = SecureSender::new(key(), 4);
    let mut frame = Vec::new();
    assert!(sender
        .seal(&mut frame, PacketKind::Record, &[0; MAX_RECORD_SIZE + 1], tag)
        .is_err());
    sender.seal(&mut frame, PacketKind::Record, b"record", tag).unwrap();

    let mut receiver = SecureReceiver::new(key(), 4);
    let (kind, payload) = receiver.open(Frame(frame.clone()), verify).unwrap();
    assert_eq!(kind, PacketKind::Record);
    assert_eq!(payload, b"record");

    for index in [0, FRAME_HEADER_SIZE, FRAME_HEADER_SIZE + 1] {
        let mut changed = frame.clone();
        changed[index] ^= 1;
        assert!(SecureReceiver::new(key(), 4).open(Frame(changed), verify).is_err());
    }

    let mut next_frame = Vec::new();
    sender.seal(&mut next_frame, PacketKind::Record, b"next", tag).unwrap();
    frame[FRAME_HEADER_SIZE + 1] ^= 1;
    let mut failed = SecureReceiver::new(key(), 4);
    assert!(failed.open(Frame(frame), verify).is_err());
    assert!(failed.open(Frame(next_frame), verify).is_err());
}

#[test]
fn handshake_headers_are_validated() {
    let mut record = header_bytes(VERSION, &qid(1), &qid(2), 0);
    record.extend_from_slice(&[1, 9]);
    assert!(decode_handshake(&record, VERSION, read_handshake).is_ok());

    record[0] = VERSION.wrapping_add(1);
    assert!(decode_handshake(&record, VERSION, read_handshake).is_err());
    record[0] = VERSION;
    record[HEADER_SIZE - 1] = 1;
    assert!(decode_handshake(&record, VERSION, read_handshake).is_err());
}

#[test]
fn frame_decoder_reports_each_misuse() {
    let mut decoder = FrameDecoder::default();
    assert_eq!(decoder.buffer().len(), FRAME_HEADER_SIZE);
    assert!(!decoder.is_partial());
    assert_eq!(decoder.advance(5).unwrap_err(), Error::BeyondBuffer);
    decoder.buffer().copy_from_slice(&((MAX_FRAME_SIZE + 1) as u32).to_le_bytes());
    assert_eq!(decoder.advance(4).unwrap_err(), Error::FrameTooLarge);
    assert!(decoder.is_partial());
    assert_eq!(decoder.finish().unwrap_err(), Error::EndedWithinFrame);

    let mut decoder = FrameDecoder::new();
    decoder.buffer().copy_from_slice(&(MAX_FRAME_SIZE as u32).to_le_bytes());
    assert!(decoder.advance(4).unwrap().is_none());
    assert_eq!(decoder.buffer().len(), MAX_FRAME_SIZE);
    let frame = decoder.advance(MAX_FRAME_SIZE).unwrap().unwrap();
    assert_eq!(frame.payload().len(), MAX_FRAME_SIZE);

    let mut decoder = FrameDecoder::new();
    decoder.buffer().copy_from_slice(&[0; 4]);
    assert_eq!(decoder.advance(4).unwrap().unwrap().payload(), b"");
}

#[test]
fn frames_come_out_however_they_are_cut() {
    let mut stream = Vec::new();
    for payload in [b"one".as_slice(), b"", b"three"] {
        stream.extend_from_slice(&frame_of(payload).0);
    }
    for size in 1..8 {
        let mut decoder = FrameDecoder::new();
        let mut frames = Vec::new();
        let mut rest = stream.as_slice();
        while !rest.is_empty() {
            let room = decoder.buffer();
            let take = size.min(room.len()).min(rest.len());
            room[..take].copy_from_slice(&rest[..take]);
            rest = &rest[take..];
            if let Some(frame) = decoder.advance(take).unwrap() {
                frames.push(frame.payload().to_vec());
            }
        }
        assert_eq!(frames, vec![b"one".to_vec(), b"".to_vec(), b"three".to_vec()]);
        assert!(decoder.finish().is_ok());
    }
}

#[test]
fn sealed_frame_has_the_documented_layout() {
    let mut sender = SecureSender::new(key(), 0);
    let mut frame = vec![1, 2, 3];
    sender.seal(&mut frame, PacketKind::Attach, b"ab", tag).unwrap();
    assert_eq!(&frame[..4], &19u32.to_le_bytes());
    assert_eq!(frame[4], 2);
    assert_eq!(&frame[5..7], b"ab");
    assert_eq!(&frame[7..], &tag(&key(), 0, &frame[..7]));
}

#[test]
fn sealed_packets_are_delivered_in_order_and_stop_at_a_bad_one() {
    let mut sender = SecureSender::new(key(), 0);
    let mut receiver = SecureReceiver::new(key(), 0);
    let mut frame = Vec::new();
    for payload in [b"a".as_slice(), b"", b"ccc"] {
        sender.seal(&mut frame, PacketKind::Record, payload, tag).unwrap();
        let (_, opened) = receiver.open(Frame(frame.clone()), verify).unwrap();
        assert_eq!(opened, payload);
    }
    // a replayed frame carries an old number
    assert_eq!(receiver.open(Frame(frame.clone()), verify).unwrap_err(), Error::TagMismatch);
    sender.seal(&mut frame, PacketKind::Record, b"d", tag).unwrap();
    assert_eq!(receiver.open(Frame(frame), verify).unwrap_err(), Error::ReceiverFailed);
}

#[test]
fn secure_directions_report_each_error() {
    let mut frame = Vec::new();
    let mut sender = SecureSender::new(key(), u64::MAX);
    let error = sender.seal(&mut frame, PacketKind::Record, b"", tag).unwrap_err();
    assert_eq!(error, Error::CounterExhausted);
    let error = sender
        .seal(&mut frame, PacketKind::Record, &[0; MAX_RECORD_SIZE + 1], tag)
        .unwrap_err();
    assert_eq!(error, Error::PayloadTooLarge);

    let open = |counter, bytes: Vec<u8>| {
        SecureReceiver::new(key(), counter).open(Frame(bytes), verify).unwrap_err()
    };
    assert_eq!(open(u64::MAX, frame_of(&[3; 17]).0), Error::CounterExhausted);
    assert_eq!(open(0, frame_of(&[3; 16]).0), Error::InvalidFrame);
    let mut wrong = frame_of(&[3; 17]).0;
    wrong[0] += 1;
    assert_eq!(open(0, wrong), Error::InvalidFrameLength);
    assert_eq!(open(0, frame_of(&[4; 17]).0), Error::UnknownPacketKind);
    assert_eq!(open(0, frame_of(&[3; 17]).0), Error::TagMismatch);
}

#[test]
fn largest_record_is_carried() {
    let mut sender = SecureSender::new(key(), 0);
    let mut frame = Vec::new();
    sender.seal(&mut frame, PacketKind::Record, &[5; MAX_RECORD_SIZE], tag).unwrap();
    assert_eq!(frame.len(), FRAME_HEADER_SIZE + MAX_FRAME_SIZE);
    let (_, payload) = SecureReceiver::new(key(), 0).open(Frame(frame), verify).unwrap();
    assert_eq!(payload, vec![5; MAX_RECORD_SIZE]);
}

#[test]
fn handshake_agrees_on_keys_and_counts_from_zero() {
    let router = bundle(9);
    let begin = |_: &PeerBundle| Ok((5u8, qid(1), 40));
    let (client, request) =
        ClientHandshake::start(&router, VERSION, begin, write_handshake).unwrap();
    // an opening record from the passing identity to the router
    let mut expected = vec![12, 0, 0, 0];
    expected.extend_from_slice(&header_bytes(VERSION, &qid(1), &qid(9), 0));
    expected.extend_from_slice(&[1, 40]);
    assert_eq!(request, expected);
    let (response, mut router_rx, mut router_tx) = accept_handshake(
        &qid(9),
        &Frame(request),
        VERSION,
        read_handshake,
        |route: &RouteHeader, opening: u8| {
            assert_eq!(route.sender.bytes, qid(1).bytes);
            assert_eq!(route.recipient.bytes, qid(9).bytes);
            Ok((opening, opening + 1))
        },
        write_handshake,
        |state: u8| Ok((SessionKey(vec![state]), SessionKey(vec![state + 1]))),
    )
    .unwrap();
    // the answer goes the way back
    let mut expected = vec![12, 0, 0, 0];
    expected.extend_from_slice(&header_bytes(VERSION, &qid(9), &qid(1), 0));
    expected.extend_from_slice(&[2, 41]);
    assert_eq!(response, expected);
    let (mut client_rx, mut client_tx) = client
        .finish(
            &Frame(response),
            VERSION,
            read_handshake,
            |state: u8, route: RouteHeader, answer: u8| {
                assert_eq!(state, 5);
                assert_eq!(route.sender.bytes, qid(9).bytes);
                Ok((SessionKey(vec![answer]), SessionKey(vec![answer - 1])))
            },
        )
        .unwrap();

    let mut frame = Vec::new();
    client_tx.seal(&mut frame, PacketKind::Confirm, &[], tag).unwrap();
    let (kind, payload) = router_rx.open(Frame(frame.clone()), verify).unwrap();
    assert!(is_confirmation(kind, &payload));
    assert!(!is_confirmation(kind, b"x"));
    assert!(!is_confirmation(PacketKind::Record, b""));
    router_tx.seal(&mut frame, PacketKind::Record, b"hi", tag).unwrap();
    assert_eq!(client_rx.open(Frame(frame), verify).unwrap().1, b"hi");
}

#[test]
fn handshake_reports_each_error() {
    let answer = |request: Vec<u8>| {
        accept_handshake(
            &qid(9),
            &frame_of(&request),
            VERSION,
            read_handshake,
            |_: &RouteHeader, opening: u8| {
                if opening == 0 {
                    return Err("refused".to_owned());
                }
                Ok((opening, opening))
            },
            |header: &RecordHeader, record: HandshakeRecord<u8, u8>| match record {
                HandshakeRecord::Ik2(1) => vec![0; MAX_FRAME_SIZE + 1],
                record => write_handshake(header, record),
            },
            |state: u8| {
                if state == 2 {
                    return Err("no keys".to_owned());
                }
                Ok((key(), key()))
            },
        )
        .map(|_| ())
    };
    let request = |recipient: u8, body: [u8; 2]| {
        let mut bytes = header_bytes(VERSION, &qid(1), &qid(recipient), 0);
        bytes.extend_from_slice(&body);
        bytes
    };
    assert_eq!(answer(vec![]), Err(Error::Rejected("bad header".to_owned())));
    let mut trailing = request(9, [1, 3]);
    trailing.push(0);
    assert_eq!(answer(trailing), Err(Error::InvalidHandshake));
    assert_eq!(answer(request(8, [1, 3])), Err(Error::WrongRecipient));
    assert_eq!(answer(request(9, [2, 3])), Err(Error::UnexpectedHandshake));
    assert_eq!(answer(request(9, [1, 0])), Err(Error::Rejected("refused".to_owned())));
    assert_eq!(answer(request(9, [1, 1])), Err(Error::PayloadTooLarge));
    assert_eq!(answer(request(9, [1, 2])), Err(Error::Rejected("no keys".to_owned())));
    assert_eq!(answer(request(9, [1, 3])), Ok(()));

    let start = |passes: bool, length: usize| {
        ClientHandshake::start(
            &bundle(9),
            VERSION,
            |_: &PeerBundle| if passes { Ok(((), qid(1), 7)) } else { Err("refused".to_owned()) },
            |_: &RecordHeader, _: HandshakeRecord<u8, u8>| vec![0; length],
        )
        .map(|_| ())
    };
    assert_eq!(start(false, 2), Err(Error::Rejected("refused".to_owned())));
    assert_eq!(start(true, MAX_FRAME_SIZE + 1), Err(Error::PayloadTooLarge));
    assert_eq!(start(true, MAX_FRAME_SIZE), Ok(()));
}

#[test]
fn handshake_records_arrive() {
    for record in [HandshakeRecord::Ik1(3), HandshakeRecord::Ik2(4)] {
        let expected = format!("{record:?}");
        let header = read_header(&header_bytes(VERSION, &qid(1), &qid(9), 0)).unwrap();
        let frame = encode_handshake(&header, record, write_handshake).unwrap();
        // the frame comes out of a decoder whole, and the record out of the frame
        let mut decoder = FrameDecoder::new();
        let mut arrived = None;
        for byte in &frame {
            assert!(arrived.is_none());
            decoder.buffer()[0] = *byte;
            arrived = decoder.advance(1).unwrap();
        }
        let arrived = arrived.unwrap();
        let (header, record) =
            decode_handshake(arrived.payload(), VERSION, read_handshake).unwrap();
        assert_eq!(header.version, VERSION);
        assert_eq!(header.record_type, RecordType::Handshake);
        assert_eq!((header.route.sender, header.route.recipient), (qid(1), qid(9)));
        assert_eq!(format!("{record:?}"), expected);
    }
    let header = read_header(&header_bytes(VERSION, &qid(1), &qid(9), 0)).unwrap();
    let large = |_: &RecordHeader, _: HandshakeRecord<u8, u8>| vec![0; MAX_FRAME_SIZE + 1];
    let error = encode_handshake(&header, HandshakeRecord::Ik1(3), large).unwrap_err();
    assert_eq!(error.kind(), ErrorKind::InvalidInput);
}

#[test]
fn packets_are_opened_in_their_turn_only() {
    let mut sender = SecureSender::new(key(), 0);
    let frames: Vec<Vec<u8>> =
        (0..4).map(|byte| send(&mut sender, PacketKind::Record, &[byte]).0).collect();
    for (order, turns) in [
        (vec![0, 1, 2, 3], 4),
        (vec![0, 1, 1, 2], 2),
        (vec![0, 2, 1, 3], 1),
        (vec![1, 0], 0),
        (vec![0, 1, 2, 0, 3], 3),
    ] {
        let mut receiver = SecureReceiver::new(key(), 0);
        for (at, packet) in order.iter().enumerate() {
            let opened = receiver.open(Frame(frames[*packet].clone()), verify);
            if at < turns {
                assert_eq!(opened.unwrap().1, vec![at as u8]);
            } else if at == turns {
                let error = opened.unwrap_err();
                assert_eq!(error, Error::TagMismatch);
                assert_eq!(error.kind(), ErrorKind::PermissionDenied);
            } else {
                assert_eq!(opened.unwrap_err(), Error::ReceiverFailed);
            }
        }
    }
}

struct Challenge(Qid);

fn connection(secure: SecureReceiver) -> RouterConnection<Challenge> {
    RouterConnection::new(qid(9), secure)
}

fn send(sender: &mut SecureSender, kind: PacketKind, payload: &[u8]) -> Frame {
    let mut frame = Vec::new();
    sender.seal(&mut frame, kind, payload, tag).unwrap();
    Frame(frame)
}

fn record(sender: u8, recipient: u8) -> Vec<u8> {
    let mut bytes = header_bytes(VERSION, &qid(sender), &qid(recipient), 1);
    bytes.extend_from_slice(b"payload");
    bytes
}

fn own(connection: &mut RouterConnection<Challenge>, byte: u8) {
    connection
        .begin_challenge(
            bundle(byte),
            |_: &PeerBundle| Ok(()),
            |bundle: PeerBundle, id: u32| Ok((Challenge(bundle.qid), id.to_le_bytes().to_vec())),
        )
        .unwrap();
    connection
        .verify_route(b"answer", |challenge: Challenge, _: &[u8]| Ok((challenge.0, vec![])))
        .unwrap();
    connection.commit_route().unwrap();
}

#[test]
fn a_route_is_owned_only_after_challenge_answer_and_commitment() {
    let mut sender = SecureSender::new(key(), 0);
    let mut inbound = connection(SecureReceiver::new(key(), 0));
    let frame = send(&mut sender, PacketKind::Attach, &[1; 4]);
    let action = inbound.receive(frame, verify, read_bundle, read_header).unwrap();
    assert!(matches!(action, RouterAction::Attach(bundle) if bundle.qid == qid(1)));

    let (challenged, request) = inbound
        .begin_challenge(
            bundle(1),
            |_: &PeerBundle| Ok(()),
            |bundle: PeerBundle, id: u32| Ok((Challenge(bundle.qid), id.to_le_bytes().to_vec())),
        )
        .unwrap();
    assert_eq!(challenged, qid(1));
    assert_eq!(request, 1u32.to_le_bytes());

    // a record of the sender is dropped while the challenge is open
    let frame = send(&mut sender, PacketKind::Record, &record(1, 2));
    let action = inbound.receive(frame, verify, read_bundle, read_header).unwrap();
    assert!(matches!(action, RouterAction::Unauthenticated { .. }));

    let frame = send(&mut sender, PacketKind::Record, &record(1, 9));
    let action = inbound.receive(frame, verify, read_bundle, read_header).unwrap();
    assert!(matches!(action, RouterAction::Authenticate(answer) if answer == record(1, 9)));
    let acceptance = inbound
        .verify_route(&record(1, 9), |challenge: Challenge, _: &[u8]| {
            Ok((challenge.0, b"accepted".to_vec()))
        })
        .unwrap();
    assert_eq!(acceptance, b"accepted");

    let frame = send(&mut sender, PacketKind::Record, &record(1, 2));
    let error = inbound.receive(frame, verify, read_bundle, read_header).unwrap_err();
    assert_eq!(error, Error::RouteNotCommitted);
    assert!(inbound.routes().is_empty());
    assert_eq!(inbound.commit_route().unwrap(), qid(1));
    assert_eq!(inbound.routes(), vec![qid(1)]);
}

#[test]
fn only_authenticated_senders_are_forwarded() {
    let mut sender = SecureSender::new(key(), 0);
    let mut inbound = connection(SecureReceiver::new(key(), 0));
    own(&mut inbound, 1);
    let frame = send(&mut sender, PacketKind::Record, &record(1, 2));
    match inbound.receive(frame, verify, read_bundle, read_header).unwrap() {
        RouterAction::Forward { sender, recipient, record: carried } => {
            assert_eq!(sender, qid(1));
            assert_eq!(recipient, qid(2));
            assert_eq!(carried, record(1, 2));
        }
        other => panic!("{other:?}"),
    }
    let frame = send(&mut sender, PacketKind::Record, &record(3, 2));
    let action = inbound.receive(frame, verify, read_bundle, read_header).unwrap();
    assert!(matches!(action, RouterAction::Unauthenticated { .. }));
}

#[test]
fn connection_reports_each_error() {
    let receive = |inbound: &mut RouterConnection<Challenge>, kind, payload: &[u8]| {
        inbound.handle_packet(kind, payload.to_vec(), read_bundle, read_header).unwrap_err()
    };
    let mut inbound = connection(SecureReceiver::new(key(), 0));
    assert_eq!(receive(&mut inbound, PacketKind::Confirm, b""), Error::UnexpectedPacket);
    assert_eq!(receive(&mut inbound, PacketKind::Record, &record(1, 2)), Error::NotAttached);
    assert_eq!(
        receive(&mut inbound, PacketKind::Attach, b"x"),
        Error::Rejected("short bundle".to_owned())
    );
    assert_eq!(receive(&mut inbound, PacketKind::Attach, &[1; 5]), Error::InvalidAttachment);
    assert_eq!(inbound.commit_route().unwrap_err(), Error::NoVerifiedRoute);
    let answer = |challenge: Challenge, _: &[u8]| Ok((challenge.0, vec![]));
    assert_eq!(inbound.verify_route(b"", answer).unwrap_err(), Error::NoChallenge);

    let error = inbound
        .begin_challenge(
            bundle(1),
            |_: &PeerBundle| Err("forged".to_owned()),
            |bundle: PeerBundle, _: u32| Ok((Challenge(bundle.qid), vec![])),
        )
        .unwrap_err();
    assert_eq!(error, Error::Rejected("forged".to_owned()));
    own(&mut inbound, 1);
    assert_eq!(receive(&mut inbound, PacketKind::Record, &record(1, 9)), Error::NoChallenge);
    assert_eq!(
        receive(&mut inbound, PacketKind::Record, b""),
        Error::Rejected("bad header".to_owned())
    );

    let begin = |inbound: &mut RouterConnection<Challenge>, byte| {
        inbound
            .begin_challenge(
                bundle(byte),
                |_: &PeerBundle| Ok(()),
                |bundle: PeerBundle, _: u32| Ok((Challenge(bundle.qid), vec![])),
            )
            .map(|_| ())
    };
    begin(&mut inbound, 2).unwrap();
    assert_eq!(begin(&mut inbound, 3), Err(Error::TransitionActive));
    assert_eq!(receive(&mut inbound, PacketKind::Attach, &[3; 4]), Error::ChallengeActive);
    let error = inbound
        .verify_route(b"", |_: Challenge, _: &[u8]| Err("wrong".to_owned()))
        .unwrap_err();
    assert_eq!(error, Error::Rejected("wrong".to_owned()));
    // the challenge is used up
    assert_eq!(inbound.verify_route(b"", answer).unwrap_err(), Error::NoChallenge);
}

#[test]
fn a_connection_owns_at_most_the_limit() {
    let mut inbound = connection(SecureReceiver::new(key(), 0));
    for byte in 0..MAX_ROUTES_PER_CONNECTION {
        own(&mut inbound, byte as u8);
    }
    assert_eq!(inbound.routes().len(), 64);
    let error = inbound
        .begin_challenge(
            bundle(200),
            |_: &PeerBundle| Ok(()),
            |bundle: PeerBundle, _: u32| Ok((Challenge(bundle.qid), vec![])),
        )
        .unwrap_err();
    assert_eq!(error, Error::RouteLimit);
    // an identity that is owned can be proved again
    own(&mut inbound, 5);
    assert_eq!(inbound.routes().len(), 64);
}

#[test]
fn errors_have_their_kind_and_words() {
    let cases = [
        (Error::BeyondBuffer, ErrorKind::InvalidInput, "frame decoder advanced beyond its buffer"),
        (Error::FrameTooLarge, ErrorKind::InvalidData, "frame exceeds the transport limit"),
        (Error::EndedWithinFrame, ErrorKind::UnexpectedEof, "connection ended within a frame"),
        (Error::ReceiverFailed, ErrorKind::InvalidData, "secure receiver has failed"),
        (Error::CounterExhausted, ErrorKind::Other, "nonce counter exhausted"),
        (Error::InvalidFrame, ErrorKind::InvalidData, "invalid authenticated frame"),
        (Error::InvalidFrameLength, ErrorKind::InvalidData, "invalid authenticated frame length"),
        (Error::TagMismatch, ErrorKind::PermissionDenied, "authenticated packet tag mismatch"),
        (Error::PayloadTooLarge, ErrorKind::InvalidInput, "frame exceeds the transport limit"),
        (Error::HandshakeIdExhausted, ErrorKind::Other, "route handshake ID exhausted"),
        (Error::WriterBroken, ErrorKind::BrokenPipe, "sender write was cancelled or failed"),
        (Error::AssemblyTimedOut, ErrorKind::TimedOut, "frame assembly timed out"),
        (Error::ConnectTimedOut, ErrorKind::TimedOut, "router connection timed out"),
        (Error::RouterDisconnected, ErrorKind::UnexpectedEof, "router disconnected"),
        (Error::Rejected("why".to_owned()), ErrorKind::InvalidData, "why"),
    ];
    for (error, kind, words) in cases {
        assert_eq!(error.kind(), kind);
        assert_eq!(error.message(), words);
    }
}

#[test]
fn routes_are_the_committed_identities_each_once() {
    let mut inbound = connection(SecureReceiver::new(key(), 0));
    assert!(inbound.routes().is_empty());
    for byte in [3, 1, 3, 2, 1] {
        own(&mut inbound, byte);
    }
    assert_eq!(inbound.routes(), vec![qid(3), qid(1), qid(2)]);
    // a challenge that is not answered well changes nothing
    inbound
        .begin_challenge(
            bundle(4),
            |_: &PeerBundle| Ok(()),
            |bundle: PeerBundle, _: u32| Ok((Challenge(bundle.qid), vec![])),
        )
        .unwrap();
    assert!(inbound
        .verify_route(b"answer", |_: Challenge, _: &[u8]| Err("refused".to_owned()))
        .is_err());
    assert_eq!(inbound.commit_route().unwrap_err(), Error::NoVerifiedRoute);
    assert_eq!(inbound.routes().len(), 3);
}

#[test]
fn commitment_gives_the_challenged_identity_once() {
    let mut inbound = connection(SecureReceiver::new(key(), 0));
    let (challenged, _) = inbound
        .begin_challenge(
            bundle(5),
            |_: &PeerBundle| Ok(()),
            |bundle: PeerBundle, _: u32| Ok((Challenge(bundle.qid), vec![])),
        )
        .unwrap();
    inbound
        .verify_route(b"answer", |challenge: Challenge, _: &[u8]| Ok((challenge.0, vec![1])))
        .unwrap();
    // a second answer has no challenge, and the route can still be committed
    let error = inbound
        .verify_route(b"answer", |challenge: Challenge, _: &[u8]| Ok((challenge.0, vec![1])))
        .unwrap_err();
    assert_eq!(error.kind(), ErrorKind::InvalidData);
    assert_eq!(inbound.commit_route().unwrap(), challenged);
    assert_eq!(inbound.routes(), vec![challenged]);
    assert_eq!(inbound.commit_route().unwrap_err().kind(), ErrorKind::InvalidData);
    assert_eq!(inbound.routes().len(), 1);
}
