use ql_lab::error::{Error, ErrorKind};
use ql_lab::protocol::frame::{Frame, FrameDecoder};
use ql_lab::protocol::handshake::{ClientHandshake, Decoded};
use ql_lab::protocol::record::{
    HandshakeRecord, PeerBundle, RecordHeader, RecordType, RouteHeader,
};
use ql_lab::protocol::secure::{SecureReceiver, SecureSender, SessionKey};
use ql_lab::protocol::wire::{PacketKind, AUTH_SIZE, MAX_RECORD_SIZE};
use ql_lab::qid::Qid;
use ql_lab::transport::{connect, receive, FrameRead, ReadOutcome, Sender, SocketWriter};

const MILLISECOND: u64 = 1_000_000;

fn tag(key: &SessionKey, counter: u64, bytes: &[u8]) -> [u8; AUTH_SIZE] {
    let sum = bytes.iter().fold(key.0[0], |sum, byte| sum.wrapping_add(*byte));
    let mut tag = [sum; AUTH_SIZE];
    tag[0] = counter as u8;
    tag
}

fn verify(key: &SessionKey, counter: u64, bytes: &[u8], given: &[u8]) -> bool {
    tag(key, counter, bytes) == given
}

fn key(byte: u8) -> SessionKey {
    SessionKey(vec![byte])
}

#[test]
fn cancelled_write_poisons_writer() {
    let mut writer = SocketWriter::new(Vec::<u8>::new());
    writer.begin().unwrap();
    // the write is dropped before it ends

    let error = writer.begin().unwrap_err();
    assert_eq!(error.kind(), ErrorKind::BrokenPipe);
}

#[test]
fn partial_frame_deadline_starts_on_first_byte_and_does_not_reset() {
    let mut decoder = FrameDecoder::new();
    let mut read = FrameRead::start(&decoder, Some(100 * MILLISECOND), 0);
    assert_eq!(read.deadline(), None);
    for time in [150, 210] {
        decoder.buffer()[0] = 0;
        let outcome = read.received(&mut decoder, 1, time * MILLISECOND).unwrap();
        assert!(matches!(outcome, ReadOutcome::Unfinished));
        assert_eq!(read.deadline(), Some(250 * MILLISECOND));
    }
    // the third byte comes at 270, after the deadline: the read has been given up
    assert_eq!(Error::AssemblyTimedOut.kind(), ErrorKind::TimedOut);
}

#[test]
fn completed_writes_may_follow_each_other() {
    let mut writer = SocketWriter::new(Vec::<u8>::new());
    for byte in 0..3 {
        writer.begin().unwrap();
        writer.inner().push(byte);
        writer.end();
    }
    assert_eq!(*writer.inner(), vec![0, 1, 2]);
}

#[test]
fn reads_end_between_frames_only() {
    let mut decoder = FrameDecoder::new();
    let mut read = FrameRead::start(&decoder, None, 0);
    assert!(matches!(read.received(&mut decoder, 0, 0), Ok(ReadOutcome::Ended)));
    decoder.buffer()[..1].copy_from_slice(&[1]);
    assert!(matches!(read.received(&mut decoder, 1, 0), Ok(ReadOutcome::Unfinished)));
    assert_eq!(read.deadline(), None);
    assert_eq!(read.received(&mut decoder, 0, 0).unwrap_err(), Error::EndedWithinFrame);
    assert_eq!(read.received(&mut decoder, 9, 0).unwrap_err(), Error::BeyondBuffer);

    // what an earlier read left counts from the start of the next one
    let read = FrameRead::start(&decoder, Some(5), 7);
    assert_eq!(read.deadline(), Some(12));
    let mut read = read;
    decoder.buffer().copy_from_slice(&[0, 0, 0]);
    assert!(matches!(read.received(&mut decoder, 3, 8), Ok(ReadOutcome::Unfinished)));
    decoder.buffer().copy_from_slice(b"x");
    match read.received(&mut decoder, 1, 9).unwrap() {
        ReadOutcome::Frame(frame) => assert_eq!(frame.payload(), b"x"),
        other => panic!("{other:?}"),
    }
}

#[test]
fn sender_numbers_packets_and_keeps_the_number_after_a_size_error() {
    let mut sender = Sender {
        tcp: SocketWriter::new(()),
        secure: SecureSender::new(key(1), 0),
        frame: Vec::new(),
    };
    let error = sender
        .send_packet(PacketKind::Record, &[0; MAX_RECORD_SIZE + 1], tag)
        .unwrap_err();
    assert_eq!(error, Error::PayloadTooLarge);
    sender.send_packet(PacketKind::Record, b"a", tag).unwrap();
    assert_eq!(sender.frame[6], 0);
    sender.tcp.end();
    sender.send_packet(PacketKind::Record, b"b", tag).unwrap();
    assert_eq!(sender.frame[6], 1);
    let error = sender.send_packet(PacketKind::Record, b"c", tag).unwrap_err();
    assert_eq!(error, Error::WriterBroken);
}

#[test]
fn client_takes_records_only() {
    let mut sender = SecureSender::new(key(1), 0);
    let mut secure = SecureReceiver::new(key(1), 0);
    let mut frame = Vec::new();
    sender.seal(&mut frame, PacketKind::Record, b"data", tag).unwrap();
    assert_eq!(receive(&mut secure, Frame(frame.clone()), verify).unwrap(), b"data");
    sender.seal(&mut frame, PacketKind::Attach, b"data", tag).unwrap();
    let error = receive(&mut secure, Frame(frame), verify).unwrap_err();
    assert_eq!(error, Error::UnexpectedRouterPacket);
}

fn answer(bytes: &[u8]) -> Decoded<(), u8> {
    let route = RouteHeader {
        sender: Qid { bytes: vec![9] },
        recipient: Qid { bytes: vec![1] },
    };
    let header = RecordHeader { version: 2, route, record_type: RecordType::Handshake };
    match bytes {
        [1] => Ok((header, HandshakeRecord::Ik1(()), 0)),
        [2, value] => Ok((header, HandshakeRecord::Ik2(*value), 0)),
        _ => Err("unreadable".to_owned()),
    }
}

fn handshake() -> ClientHandshake<u8> {
    let router = PeerBundle { qid: Qid { bytes: vec![9] }, name: "r".to_owned(), encoded: vec![] };
    let begin = |_: &PeerBundle| Ok((3u8, Qid { bytes: vec![1] }, ()));
    let write = |_: &RecordHeader, _: HandshakeRecord<(), u8>| vec![];
    ClientHandshake::start(&router, 2, begin, write).unwrap().0
}

fn set_up(response: Option<Frame>) -> Result<(SecureReceiver, SecureSender, Vec<u8>), Error> {
    connect(
        handshake(),
        response,
        2,
        answer,
        |state: u8, _: RouteHeader, value: u8| {
            if value == 0 {
                return Err("no keys".to_owned());
            }
            Ok((key(state), key(value)))
        },
        tag,
    )
}

#[test]
fn connection_is_confirmed_with_number_zero() {
    let (_, mut sender, frame) = set_up(Some(Frame(vec![2, 0, 0, 0, 2, 8]))).ok().unwrap();
    let mut router = SecureReceiver::new(key(8), 0);
    let (kind, payload) = router.open(Frame(frame), verify).unwrap();
    assert_eq!(kind, PacketKind::Confirm);
    assert!(payload.is_empty());
    let mut next = Vec::new();
    sender.seal(&mut next, PacketKind::Attach, b"me", tag).unwrap();
    assert_eq!(router.open(Frame(next), verify).unwrap().1, b"me");
}

#[test]
fn connection_set_up_reports_each_error() {
    let error = |response| set_up(response).err().unwrap();
    assert_eq!(error(None), Error::RouterDisconnected);
    assert_eq!(error(Some(Frame(vec![1, 0, 0, 0, 1]))), Error::UnexpectedHandshake);
    assert_eq!(
        error(Some(Frame(vec![2, 0, 0, 0, 2, 0]))),
        Error::Rejected("no keys".to_owned())
    );
    assert_eq!(
        error(Some(Frame(vec![0, 0, 0, 0]))),
        Error::Rejected("unreadable".to_owned())
    );
}

#[test]
fn nothing_follows_a_write_that_was_cut() {
    let writes: [(&[u8], usize); 4] = [(b"one", 3), (b"two", 3), (b"three", 2), (b"four", 4)];
    let mut writer = SocketWriter::new(Vec::<u8>::new());
    let mut begun = Vec::new();
    for (bytes, taken) in writes {
        let begins = writer.begin();
        begun.push(begins.is_ok());
        if begins.is_ok() {
            writer.inner().extend_from_slice(&bytes[..taken]);
            if taken == bytes.len() {
                writer.end();
            }
        }
    }
    assert_eq!(begun, vec![true, true, true, false]);
    assert_eq!(*writer.inner(), b"onetwoth".to_vec());
    assert_eq!(writer.begin().unwrap_err().kind(), ErrorKind::BrokenPipe);
}

#[test]
fn frame_that_is_too_large_is_refused_at_its_header() {
    let mut decoder = FrameDecoder::new();
    let mut read = FrameRead::start(&decoder, Some(7), 0);
    decoder.buffer().copy_from_slice(&[0xff; 4]);
    let error = read.received(&mut decoder, 4, 1).unwrap_err();
    assert_eq!(error, Error::FrameTooLarge);
    assert!(decoder.is_partial());
    assert_eq!(decoder.buffer().len(), 0);
}

#[test]
fn record_that_is_too_large_does_no_harm() {
    let mut sender = Sender {
        tcp: SocketWriter::new(()),
        secure: SecureSender::new(key(1), 0),
        frame: Vec::new(),
    };
    let mut secure = SecureReceiver::new(key(1), 0);
    for record in [vec![7; MAX_RECORD_SIZE], vec![], vec![8, 9]] {
        let large = [0; MAX_RECORD_SIZE + 1];
        let error = sender.send_packet(PacketKind::Record, &large, tag).unwrap_err();
        assert_eq!(error.kind(), ErrorKind::InvalidInput);
        sender.send_packet(PacketKind::Record, &record, tag).unwrap();
        sender.tcp.end();
        let frame = Frame(sender.frame.clone());
        assert_eq!(receive(&mut secure, frame, verify).unwrap(), record);
    }
}
