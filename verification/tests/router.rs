use ql_lab::error::Error;
use ql_lab::protocol::frame::Frame;
use ql_lab::protocol::record::{PeerBundle, RecordHeader, RecordType, RouteHeader};
use ql_lab::protocol::secure::{SecureReceiver, SecureSender, SessionKey};
use ql_lab::protocol::wire::{PacketKind, AUTH_SIZE, MAX_RECORD_SIZE};
use ql_lab::qid::Qid;
use ql_lab::router::{
    confirm, handle_action, handshake_workers, next_connection, request, Config, ReadLimit,
    RouterError, Serving, Step, SECOND,
};
use ql_lab::protocol::connection::RouterAction;
use ql_lab::table::Table;
use sha2::{Digest, Sha256};
use std::collections::HashMap;

const ROUTER: u8 = 100;
const HEADER_SIZE: usize = 10;

fn tag(key: &SessionKey, counter: u64, bytes: &[u8]) -> [u8; AUTH_SIZE] {
    let mut hasher = Sha256::new();
    hasher.update(&key.0);
    hasher.update(counter.to_le_bytes());
    hasher.update(bytes);
    let mut tag = [0; AUTH_SIZE];
    tag.copy_from_slice(&hasher.finalize()[..AUTH_SIZE]);
    tag
}

fn verify(key: &SessionKey, counter: u64, bytes: &[u8], given: &[u8]) -> bool {
    tag(key, counter, bytes) == given
}

fn key() -> SessionKey {
    SessionKey(vec![7; 32])
}

fn qid(byte: u8) -> Qid {
    Qid { bytes: vec![byte; 4] }
}

fn bundle(byte: u8) -> PeerBundle {
    PeerBundle { qid: qid(byte), name: format!("peer {byte}"), encoded: vec![byte; 4] }
}

fn record(sender: u8, recipient: u8, payload_size: usize) -> Vec<u8> {
    let mut bytes = vec![2];
    bytes.extend_from_slice(&[sender; 4]);
    bytes.extend_from_slice(&[recipient; 4]);
    bytes.push(1);
    bytes.resize(bytes.len() + payload_size, 0);
    bytes
}

fn read_header(bytes: &[u8]) -> Result<RecordHeader, String> {
    if bytes.len() < HEADER_SIZE {
        return Err("bad header".to_owned());
    }
    Ok(RecordHeader {
        version: bytes[0],
        route: RouteHeader {
            sender: Qid { bytes: bytes[1..5].to_vec() },
            recipient: Qid { bytes: bytes[5..9].to_vec() },
        },
        record_type: RecordType::Session,
    })
}

fn read_bundle(bytes: &[u8]) -> Result<(PeerBundle, usize), String> {
    Ok((bundle(bytes[0]), bytes.len() - 4))
}

/// A client and the router's side of its connection, with what the router queued for it.
struct Peer {
    sender: SecureSender,
    outbound: SecureSender,
    inbound: SecureReceiver,
    queue: Vec<Vec<u8>>,
}

struct Network {
    table: Table,
    serving: HashMap<u64, Serving<Qid>>,
    peers: HashMap<u64, Peer>,
    next: u64,
}

impl Network {
    fn new() -> Self {
        Network {
            table: Table::new(),
            serving: HashMap::new(),
            peers: HashMap::new(),
            next: 1,
        }
    }

    fn connect(&mut self) -> u64 {
        let connection = self.next;
        self.next = next_connection(connection).unwrap();
        let serving = Serving::new(connection, qid(ROUTER), SecureReceiver::new(key(), 0));
        self.serving.insert(connection, serving);
        self.peers.insert(
            connection,
            Peer {
                sender: SecureSender::new(key(), 0),
                outbound: SecureSender::new(key(), 0),
                inbound: SecureReceiver::new(key(), 0),
                queue: Vec::new(),
            },
        );
        connection
    }

    fn deliver(&mut self, connection: u64, record: &[u8]) {
        let peer = self.peers.get_mut(&connection).unwrap();
        let mut frame = Vec::new();
        peer.outbound.seal(&mut frame, PacketKind::Record, record, tag).unwrap();
        let (_, payload) = peer.inbound.open(Frame(frame), verify).unwrap();
        peer.queue.push(payload);
    }

    fn send(&mut self, connection: u64, kind: PacketKind, payload: &[u8]) -> Result<(), Error> {
        let peer = self.peers.get_mut(&connection).unwrap();
        let mut frame = Vec::new();
        peer.sender.seal(&mut frame, kind, payload, tag)?;
        let serving = self.serving.get_mut(&connection).unwrap();
        let step = serving
            .handle_inbound(&self.table, Frame(frame), verify, read_bundle, read_header)
            .unwrap();
        match step {
            Step::Challenge(bundle) => {
                let (_, request) = serving
                    .challenge(
                        true,
                        bundle,
                        0,
                        |_: &PeerBundle| Ok(()),
                        |bundle: PeerBundle, _: u32| Ok((bundle.qid, b"challenge".to_vec())),
                    )
                    .unwrap();
                self.deliver(connection, &request);
            }
            Step::Verify(answer) => {
                let accepted = serving
                    .verify(&answer, |challenged: Qid, _: &[u8]| {
                        Ok((challenged, b"accepted".to_vec()))
                    })
                    .unwrap();
                serving.publish(&mut self.table, true).unwrap();
                self.deliver(connection, &accepted);
            }
            Step::Deliver { connection, record } => self.deliver(connection, &record),
            Step::NoRoute { .. } | Step::Unauthenticated { .. } => {}
        }
        Ok(())
    }

    fn receive(&mut self, connection: u64) -> Option<Vec<u8>> {
        let queue = &mut self.peers.get_mut(&connection).unwrap().queue;
        if queue.is_empty() {
            None
        } else {
            Some(queue.remove(0))
        }
    }

    fn authenticate(&mut self, connection: u64, identity: u8) {
        self.send(connection, PacketKind::Attach, &[identity; 4]).unwrap();
        assert_eq!(self.receive(connection).unwrap(), b"challenge");
        self.send(connection, PacketKind::Record, &record(identity, ROUTER, 8)).unwrap();
        assert_eq!(self.receive(connection).unwrap(), b"accepted");
    }

    fn close(&mut self, connection: u64) {
        self.serving.remove(&connection).unwrap().close(&mut self.table);
        self.peers.remove(&connection);
    }
}

#[test]
fn authenticated_tcp_routes_and_takeover() {
    let mut network = Network::new();
    let (alice, bob) = (1, 2);
    let alice_link = network.connect();
    network.authenticate(alice_link, alice);
    let bob_link = network.connect();
    network.authenticate(bob_link, bob);

    let forged = record(9, bob, 32);
    network.send(alice_link, PacketKind::Record, &forged).unwrap();
    assert_eq!(network.receive(bob_link), None);

    let small = record(alice, bob, 32);
    network.send(alice_link, PacketKind::Record, &small).unwrap();
    assert_eq!(network.receive(bob_link), Some(small));

    let small = record(bob, alice, 32);
    network.send(bob_link, PacketKind::Record, &small).unwrap();
    assert_eq!(network.receive(alice_link), Some(small));

    let replacement = network.connect();
    network.authenticate(replacement, alice);
    let takeover = record(bob, alice, 32);
    network.send(bob_link, PacketKind::Record, &takeover).unwrap();
    assert_eq!(network.receive(replacement), Some(takeover));
    assert_eq!(network.receive(alice_link), None);

    network.authenticate(alice_link, alice);
    network.close(replacement);
    let reclaimed = record(bob, alice, 32);
    network.send(bob_link, PacketKind::Record, &reclaimed).unwrap();
    assert_eq!(network.receive(alice_link), Some(reclaimed));

    let largest = record(bob, alice, MAX_RECORD_SIZE - HEADER_SIZE);
    network.send(bob_link, PacketKind::Record, &largest).unwrap();
    assert_eq!(network.receive(alice_link), Some(largest));

    let oversized = record(bob, alice, MAX_RECORD_SIZE + 1 - HEADER_SIZE);
    assert!(network.send(bob_link, PacketKind::Record, &oversized).is_err());

    let after_error = record(bob, alice, 32);
    network.send(bob_link, PacketKind::Record, &after_error).unwrap();
    assert_eq!(network.receive(alice_link), Some(after_error));
}

#[test]
fn a_superseded_connection_leaves_the_newer_route() {
    let mut network = Network::new();
    let older = network.connect();
    network.authenticate(older, 1);
    let newer = network.connect();
    network.authenticate(newer, 1);
    network.close(older);
    assert_eq!(network.table.get(&qid(1)), Some(newer));
    network.close(newer);
    assert_eq!(network.table.get(&qid(1)), None);
}

#[test]
fn table_holds_the_last_number_of_each_identity() {
    let mut table = Table::new();
    assert_eq!(table.get(&qid(1)), None);
    table.insert(qid(1), 5);
    table.insert(qid(2), 6);
    table.insert(qid(1), 7);
    assert_eq!(table.get(&qid(1)), Some(7));
    table.withdraw(&vec![qid(1), qid(2), qid(3)], 6);
    assert_eq!(table.get(&qid(1)), Some(7));
    assert_eq!(table.get(&qid(2)), None);
    table.remove(&qid(1));
    assert_eq!(table.get(&qid(1)), None);
}

#[test]
fn records_without_a_route_are_dropped() {
    let table = Table::new();
    let action = RouterAction::Forward { sender: qid(1), recipient: qid(2), record: vec![1] };
    match handle_action(&table, Ok(action)).unwrap() {
        Step::NoRoute { sender, recipient } => {
            assert_eq!(sender, qid(1));
            assert_eq!(recipient, qid(2));
        }
        other => panic!("{other:?}"),
    }
    let error = handle_action(&table, Err(Error::NotAttached)).unwrap_err();
    assert_eq!(error.message(), "I/O error: peer must attach before routing records");
}

#[test]
fn a_challenge_bounds_the_connection_until_it_is_answered() {
    let mut table = Table::new();
    let mut serving: Serving<Qid> = Serving::new(3, qid(ROUTER), SecureReceiver::new(key(), 0));
    assert!(matches!(serving.read_limit(), ReadLimit::Assembly(5)));
    let begin = |serving: &mut Serving<Qid>, admitted| {
        serving
            .challenge(
                admitted,
                bundle(1),
                SECOND,
                |_: &PeerBundle| Ok(()),
                |bundle: PeerBundle, id: u32| Ok((bundle.qid, id.to_le_bytes().to_vec())),
            )
            .map(|(_, request)| request)
    };
    let error = begin(&mut serving, false).unwrap_err();
    assert_eq!(error.message(), "handshake capacity exhausted");
    assert_eq!(begin(&mut serving, true).unwrap(), 1u32.to_le_bytes());
    assert!(matches!(serving.read_limit(), ReadLimit::Until(deadline) if deadline == 6 * SECOND));
    let error = begin(&mut serving, true).unwrap_err();
    assert!(matches!(error, RouterError::Io(Error::TransitionActive)));

    serving.verify(b"", |qid: Qid, _: &[u8]| Ok((qid, vec![]))).unwrap();
    assert!(matches!(serving.read_limit(), ReadLimit::Assembly(5)));
    let error = serving.verify(b"", |qid: Qid, _: &[u8]| Ok((qid, vec![]))).unwrap_err();
    assert_eq!(error.message(), "transport protocol error");

    // the acceptance record could not be queued, so nothing is published
    let error = serving.publish(&mut table, false).unwrap_err();
    assert_eq!(error.message(), "connection writer stopped");
    assert_eq!(table.get(&qid(1)), None);
    assert_eq!(serving.publish(&mut table, true).unwrap(), qid(1));
    assert_eq!(table.get(&qid(1)), Some(3));
    let error = serving.publish(&mut table, true).unwrap_err();
    assert!(matches!(error, RouterError::Io(Error::NoVerifiedRoute)));
    // numbers of challenges go on
    assert_eq!(begin(&mut serving, true).unwrap(), 2u32.to_le_bytes());
}

#[test]
fn only_the_empty_confirmation_ends_the_set_up() {
    let confirm_with = |kind, payload: &[u8]| {
        let mut frame = Vec::new();
        SecureSender::new(key(), 0).seal(&mut frame, kind, payload, tag).unwrap();
        confirm(&mut SecureReceiver::new(key(), 0), Some(Frame(frame)), verify)
    };
    assert!(confirm_with(PacketKind::Confirm, b"").is_ok());
    assert!(matches!(confirm_with(PacketKind::Confirm, b"x"), Err(RouterError::Protocol)));
    assert!(matches!(confirm_with(PacketKind::Record, b""), Err(RouterError::Protocol)));
    let outcome = confirm(&mut SecureReceiver::new(key(), 0), None, verify);
    assert!(matches!(outcome, Err(RouterError::Protocol)));
    let outcome = confirm(&mut SecureReceiver::new(key(), 0), Some(Frame(vec![])), verify);
    assert!(matches!(outcome, Err(RouterError::Io(Error::InvalidFrame))));
}

#[test]
fn router_settings_and_limits() {
    let config = Config::default();
    assert_eq!(config.log, "INFO");
    assert_eq!(config.address, "127.0.0.1:7447");
    assert_eq!(config.identity_path, "ql-router/identity.bin");
    assert_eq!(config.bundle_path, "ql-router/bundle.bin");
    assert_eq!(config.max_connections, 16384);
    assert!(config.connections_in_range(16384));
    assert!(!config.connections_in_range(16383));
    assert!(!Config { max_connections: 0, ..Config::default() }.connections_in_range(9));

    assert_eq!(handshake_workers(None), 1);
    for (processors, workers) in [(1, 1), (2, 1), (3, 1), (4, 2), (7, 3), (8, 4), (64, 4)] {
        assert_eq!(handshake_workers(Some(processors)), workers);
    }
    assert_eq!(next_connection(1), Some(2));
    assert_eq!(next_connection(u64::MAX), None);
    assert_eq!(RouterError::ChallengeTimedOut.message(), "route challenge timed out");
    assert_eq!(RouterError::HandshakeTimedOut.message(), "transport handshake timed out");
    assert_eq!(RouterError::WriteTimedOut.message(), "connection write timed out");
}

#[test]
fn identities_are_written_in_hexadecimal() {
    let qid = Qid { bytes: vec![0, 0x1f, 0xab, 0xff] };
    assert_eq!(qid.to_hex(), "001fabff");
}

#[test]
fn connection_that_ends_before_its_request_is_an_error() {
    assert_eq!(request(Some(Frame(vec![1, 0, 0, 0, 9]))).unwrap().0, vec![1, 0, 0, 0, 9]);
    assert_eq!(request(None).unwrap_err().message(), "transport protocol error");
}
