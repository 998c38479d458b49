//! The router: its limits, the set-up of a connection, what it does with each packet, and
//! how routes come and go.
use vstd::prelude::*;

use crate::error::Error;
use crate::protocol::connection::{
    action_failed, RouteTransition, RouterAction, RouterConnection,
};
use crate::protocol::frame::Frame;
use crate::protocol::handshake::is_confirmation;
use crate::protocol::record::{PeerBundle, RecordHeader};
use crate::protocol::secure::{opens, SecureReceiver, SessionKey};
use crate::protocol::wire::PacketKind;
use crate::qid::Qid;
use crate::table::{withdrawn, Table};
use crate::DEFAULT_ADDRESS;

verus! {

/// How many records may wait for one connection.
pub const OUTBOUND_QUEUE_SIZE: usize = 4;

/// How many route challenges may be open at once.
pub const MAX_PENDING_HANDSHAKES: usize = 1024;

/// How many connections may be setting up their transport at once.
pub const MAX_PENDING_TRANSPORTS: usize = 512;

/// How many seconds a handshake, of the transport or of a route, may take.
pub const HANDSHAKE_TIMEOUT: u64 = 5;

/// How many seconds a frame may take from its first byte to its last.
pub const FRAME_ASSEMBLY_TIMEOUT: u64 = 5;

/// How many seconds the write of a frame may take.
pub const WRITE_TIMEOUT: u64 = 30;

/// After how many idle seconds a connection is probed.
pub const KEEPALIVE_IDLE: u64 = 60;

/// How many seconds lie between two probes.
pub const KEEPALIVE_INTERVAL: u64 = 30;

/// How many milliseconds the router waits after it failed to accept a connection.
pub const ACCEPT_RETRY_DELAY: u64 = 100;

/// A second on the router's clock, which counts nanoseconds.
pub const SECOND: u64 = 1_000_000_000;

/// The router's settings.
#[derive(Debug)]
pub struct Config {
    pub log: String,
    pub address: String,
    pub identity_path: String,
    pub bundle_path: String,
    pub max_connections: usize,
}

impl Default for Config {
    fn default() -> (config: Self)
        ensures
            config.log@ == "INFO"@,
            config.address@ == DEFAULT_ADDRESS@,
            config.identity_path@ == "ql-router/identity.bin"@,
            config.bundle_path@ == "ql-router/bundle.bin"@,
            config.max_connections == 16 * 1024,
    {
        Config {
            log: "INFO".to_owned(),
            address: DEFAULT_ADDRESS.to_owned(),
            identity_path: "ql-router/identity.bin".to_owned(),
            bundle_path: "ql-router/bundle.bin".to_owned(),
            max_connections: 16 * 1024,
        }
    }
}

impl Config {
    /// Whether the number of connections is one that can be granted: at least one, and no
    /// more than there can be permits.
    pub fn connections_in_range(&self, max_permits: usize) -> (in_range: bool)
        ensures
            in_range == (1 <= self.max_connections <= max_permits),
    {
        1 <= self.max_connections && self.max_connections <= max_permits
    }
}

/// How many handshakes are worked on at once, given how many processors there are.
pub open spec fn workers_for(parallelism: Option<usize>) -> usize {
    match parallelism {
        None => 1usize,
        Some(parallelism) => if parallelism < 4 {
            1
        } else if parallelism >= 8 {
            4
        } else {
            parallelism / 2
        },
    }
}

/// How many handshakes are worked on at once: half of the processors, but at least one and
/// at most four; one where their number is not known.
pub fn handshake_workers(parallelism: Option<usize>) -> (workers: usize)
    ensures
        workers == workers_for(parallelism),
        workers == match parallelism {
            None => 1usize,
            Some(parallelism) => if parallelism < 4 {
                1
            } else if parallelism >= 8 {
                4
            } else {
                parallelism / 2
            },
        },
{
    match parallelism {
        None => 1,
        Some(parallelism) => {
            let half: usize = parallelism / 2;
            if half < 1 {
                1
            } else if half > 4 {
                4
            } else {
                half
            }
        },
    }
}

/// The number of the connection that follows this one, if there is one left.
pub open spec fn following(connection: u64) -> Option<u64> {
    if connection < u64::MAX {
        Some((connection + 1) as u64)
    } else {
        None
    }
}

/// The number of the connection that follows this one.
pub fn next_connection(connection: u64) -> (next: Option<u64>)
    ensures
        next == following(connection),
        next == if connection < u64::MAX {
            Some((connection + 1) as u64)
        } else {
            None
        },
{
    connection.checked_add(1)
}

/// Why the router gave up a connection.
#[derive(Debug)]
pub enum RouterError {
    /// The transport refused, or reading or writing failed.
    Io(Error),
    ChallengeTimedOut,
    HandshakeTimedOut,
    HandshakeOverloaded,
    WriterStopped,
    WriteTimedOut,
    Protocol,
}

impl RouterError {
    /// The words that each error is reported with.
    pub open spec fn spec_message(self) -> Seq<char> {
        match self {
            RouterError::Io(error) => "I/O error: "@ + error.spec_message(),
            RouterError::ChallengeTimedOut => "route challenge timed out"@,
            RouterError::HandshakeTimedOut => "transport handshake timed out"@,
            RouterError::HandshakeOverloaded => "handshake capacity exhausted"@,
            RouterError::WriterStopped => "connection writer stopped"@,
            RouterError::WriteTimedOut => "connection write timed out"@,
            RouterError::Protocol => "transport protocol error"@,
        }
    }

    /// The words that the error is reported with.
    pub fn message(&self) -> (message: String)
        ensures
            message@ == self.spec_message(),
    {
        match self {
            RouterError::Io(error) => {
                let message: String = "I/O error: ".to_owned();
                message.concat(error.message().as_str())
            },
            RouterError::ChallengeTimedOut => "route challenge timed out".to_owned(),
            RouterError::HandshakeTimedOut => "transport handshake timed out".to_owned(),
            RouterError::HandshakeOverloaded => "handshake capacity exhausted".to_owned(),
            RouterError::WriterStopped => "connection writer stopped".to_owned(),
            RouterError::WriteTimedOut => "connection write timed out".to_owned(),
            RouterError::Protocol => "transport protocol error".to_owned(),
        }
    }
}

/// Takes a client's first frame, the request of its handshake: a connection that ends
/// before it is an error.
pub fn request(frame: Option<Frame>) -> (outcome: Result<Frame, RouterError>)
    ensures
        outcome == match frame {
            Some(frame) => Ok::<Frame, RouterError>(frame),
            None => Err(RouterError::Protocol),
        },
{
    match frame {
        Some(frame) => Ok(frame),
        None => Err(RouterError::Protocol),
    }
}

/// Takes a client's confirmation, the last step of the transport's set-up: anything but
/// the empty confirmation packet, and the end of the connection too, is an error.
/// `verify` checks the packet's tag.
pub fn confirm<V>(
    inbound: &mut SecureReceiver,
    confirmation: Option<Frame>,
    verify: V,
) -> (outcome: Result<(), RouterError>) where
    V: FnOnce(&SessionKey, u64, &[u8], &[u8]) -> bool,

    requires
        forall|key: &SessionKey, counter: u64, bytes: &[u8], tag: &[u8]|
            call_requires(verify, (key, counter, bytes, tag)),
    ensures
        confirmation is None ==> {
            &&& outcome == Err::<(), RouterError>(RouterError::Protocol)
            &&& *final(inbound) == *old(inbound)
        },
        confirmation matches Some(frame) ==> exists|opened: Result<(PacketKind, Vec<u8>), Error>|
            {
                &&& #[trigger] opens(*old(inbound), frame@, verify, *final(inbound), opened)
                &&& outcome == confirmed(opened)
            },
{
    let frame = match confirmation {
        Some(frame) => frame,
        None => return Err(RouterError::Protocol),
    };
    let opened = inbound.open(frame, verify);
    let ghost seen = opened;
    assert(opens(*old(inbound), frame@, verify, *inbound, seen));
    match opened {
        Err(error) => Err(RouterError::Io(error)),
        Ok((kind, payload)) => if is_confirmation(kind, payload.as_slice()) {
            Ok(())
        } else {
            Err(RouterError::Protocol)
        },
    }
}

/// What the router makes of the packet that should confirm the set-up.
pub open spec fn confirmed(opened: Result<(PacketKind, Vec<u8>), Error>) -> Result<
    (),
    RouterError,
> {
    match opened {
        Err(error) => Err(RouterError::Io(error)),
        Ok((kind, payload)) => if kind == PacketKind::Confirm && payload@.len() == 0 {
            Ok(())
        } else {
            Err(RouterError::Protocol)
        },
    }
}

/// What the next read of a connection may take.
#[derive(Debug)]
pub enum ReadLimit {
    /// The read ends, and the connection with it, at this time.
    Until(u64),
    /// The read may wait; a frame that has begun must be whole within this many seconds.
    Assembly(u64),
}

/// What is to be done with a packet.
#[derive(Debug)]
pub enum Step {
    /// Challenge the identity of this bundle, if a challenge is admitted.
    Challenge(PeerBundle),
    /// Check this answer to the challenge.
    Verify(Vec<u8>),
    /// Hand the record to this connection.
    Deliver { connection: u64, record: Vec<u8> },
    /// Drop the record: no connection serves its recipient.
    NoRoute { sender: Qid, recipient: Qid },
    /// Drop the record: its sender did not authenticate on this connection.
    Unauthenticated { sender: Qid, recipient: Qid },
}

/// What the router does next about a packet, by what the transport makes of it and by
/// which connections serve which identities.
pub open spec fn step_of(
    table: Map<Seq<u8>, u64>,
    action: Result<RouterAction, Error>,
    outcome: Result<Step, RouterError>,
) -> bool {
    match action {
        Err(error) => outcome == Err::<Step, RouterError>(RouterError::Io(error)),
        Ok(RouterAction::Attach(bundle)) => outcome == Ok::<Step, RouterError>(
            Step::Challenge(bundle),
        ),
        Ok(RouterAction::Authenticate(record)) => outcome == Ok::<Step, RouterError>(
            Step::Verify(record),
        ),
        Ok(RouterAction::Forward { sender, recipient, record }) => if table.contains_key(
            recipient@,
        ) {
            outcome == Ok::<Step, RouterError>(
                Step::Deliver { connection: table[recipient@], record },
            )
        } else {
            outcome == Ok::<Step, RouterError>(Step::NoRoute { sender, recipient })
        },
        Ok(RouterAction::Unauthenticated { sender, recipient }) => outcome == Ok::<
            Step,
            RouterError,
        >(Step::Unauthenticated { sender, recipient }),
    }
}

/// What the transport makes of a packet, and what the router does next about it.
pub fn handle_action(table: &Table, action: Result<RouterAction, Error>) -> (outcome: Result<
    Step,
    RouterError,
>)
    ensures
        step_of(table@, action, outcome),
{
    match action {
        Err(error) => Err(RouterError::Io(error)),
        Ok(RouterAction::Attach(bundle)) => Ok(Step::Challenge(bundle)),
        Ok(RouterAction::Authenticate(record)) => Ok(Step::Verify(record)),
        Ok(RouterAction::Forward { sender, recipient, record }) => match table.get(&recipient) {
            Some(connection) => Ok(Step::Deliver { connection, record }),
            None => Ok(Step::NoRoute { sender, recipient }),
        },
        Ok(RouterAction::Unauthenticated { sender, recipient }) => Ok(
            Step::Unauthenticated { sender, recipient },
        ),
    }
}

/// A connection that the router serves: its number, what it has proved, and when the
/// challenge that is open has to be answered. Times are nanoseconds.
pub struct Serving<C> {
    connection: u64,
    inbound: RouterConnection<C>,
    challenge: Option<u64>,
}

impl<C> Serving<C> {
    /// The connection's number.
    pub closed spec fn spec_connection(self) -> u64 {
        self.connection
    }

    /// What the connection has proved.
    pub closed spec fn spec_inbound(self) -> RouterConnection<C> {
        self.inbound
    }

    /// When the open challenge has to be answered.
    pub closed spec fn spec_challenge(self) -> Option<u64> {
        self.challenge
    }

    /// A deadline runs exactly while a challenge is open.
    pub open spec fn well_formed(self) -> bool {
        &&& self.spec_inbound().well_formed()
        &&& self.spec_challenge() is Some <==> self.spec_inbound().spec_transition() is Challenging
    }

    /// Every identity that a table leads to this connection for was proved on it.
    pub open spec fn owns_its_routes(self, table: Map<Seq<u8>, u64>) -> bool {
        forall|qid: Seq<u8>| #[trigger]
            table.contains_key(qid) && table[qid] == self.spec_connection()
                ==> self.spec_inbound().spec_routes().contains(qid)
    }

    /// A connection whose transport is set up.
    pub fn new(connection: u64, identity: Qid, secure: SecureReceiver) -> (serving: Self)
        ensures
            serving.well_formed(),
            serving.spec_connection() == connection,
            serving.spec_challenge() is None,
            serving.spec_inbound().within_limit(),
            serving.spec_inbound().spec_identity() == identity@,
            serving.spec_inbound().spec_secure() == secure,
            serving.spec_inbound().spec_transition() == RouteTransition::<C>::Ready,
            serving.spec_inbound().spec_next_handshake_id() == 1,
            serving.spec_inbound().spec_routes() == Seq::<Seq<u8>>::empty(),
    {
        Serving { connection, inbound: RouterConnection::new(identity, secure), challenge: None }
    }

    /// What the next read may take.
    pub open spec fn reads_within(self) -> ReadLimit {
        match self.spec_challenge() {
            Some(deadline) => ReadLimit::Until(deadline),
            None => ReadLimit::Assembly(FRAME_ASSEMBLY_TIMEOUT),
        }
    }

    /// What comes of a packet: what opening it comes to, and what the router does about it.
    pub open spec fn handles<V, D, R>(
        self,
        table: Map<Seq<u8>, u64>,
        packet: Seq<u8>,
        verify: V,
        decode_bundle: D,
        decode_header: R,
        after: Self,
        outcome: Result<Step, RouterError>,
    ) -> bool where
        V: FnOnce(&SessionKey, u64, &[u8], &[u8]) -> bool,
        D: FnOnce(&[u8]) -> Result<(PeerBundle, usize), String>,
        R: FnOnce(&[u8]) -> Result<RecordHeader, String>,
     {
        &&& after.spec_connection() == self.spec_connection()
        &&& after.spec_challenge() == self.spec_challenge()
        &&& exists|action: Result<RouterAction, Error>|
            {
                &&& #[trigger] self.spec_inbound().receives(
                    packet,
                    verify,
                    decode_bundle,
                    decode_header,
                    after.spec_inbound(),
                    action,
                )
                &&& step_of(table, action, outcome)
            }
    }

    /// What comes of challenging the identity of a bundle, which is answered in time or not
    /// at all.
    pub open spec fn challenged<A, N>(
        self,
        admitted: bool,
        bundle: PeerBundle,
        now: u64,
        validate: A,
        challenge: N,
        after: Self,
        outcome: Result<(Qid, Vec<u8>), RouterError>,
    ) -> bool where
        A: FnOnce(&PeerBundle) -> Result<(), String>,
        N: FnOnce(PeerBundle, u32) -> Result<(C, Vec<u8>), String>,
     {
        &&& after.spec_connection() == self.spec_connection()
        &&& after.spec_challenge() == if outcome is Ok {
            Some((now + HANDSHAKE_TIMEOUT * SECOND) as u64)
        } else {
            self.spec_challenge()
        }
        &&& if !admitted {
            &&& outcome == Err::<(Qid, Vec<u8>), RouterError>(RouterError::HandshakeOverloaded)
            &&& after.spec_inbound() == self.spec_inbound()
        } else {
            exists|begun: Result<(Qid, Vec<u8>), Error>|
                {
                    &&& self.spec_inbound().begins(
                        bundle,
                        validate,
                        challenge,
                        after.spec_inbound(),
                        begun,
                    )
                    &&& #[trigger] io_of(begun, outcome)
                }
        }
    }

    /// What comes of an answer to the challenge, whose time stops running.
    pub open spec fn verified<V>(
        self,
        record: &[u8],
        verify: V,
        after: Self,
        outcome: Result<Vec<u8>, RouterError>,
    ) -> bool where V: FnOnce(C, &[u8]) -> Result<(Qid, Vec<u8>), String> {
        &&& after.spec_connection() == self.spec_connection()
        &&& after.spec_challenge() is None
        &&& if self.spec_challenge() is None {
            &&& outcome == Err::<Vec<u8>, RouterError>(RouterError::Protocol)
            &&& after.spec_inbound() == self.spec_inbound()
        } else {
            exists|answered: Result<Vec<u8>, Error>|
                {
                    &&& #[trigger] self.spec_inbound().verifies(
                        record,
                        verify,
                        after.spec_inbound(),
                        answered,
                    )
                    &&& match answered {
                        Err(error) => outcome == Err::<Vec<u8>, RouterError>(
                            RouterError::Io(error),
                        ),
                        Ok(acceptance) => outcome == Ok::<Vec<u8>, RouterError>(acceptance),
                    }
                }
        }
    }

    /// What comes of publishing the route that was verified.
    pub open spec fn published(
        self,
        table: Map<Seq<u8>, u64>,
        queued: bool,
        after: Self,
        table_after: Map<Seq<u8>, u64>,
        outcome: Result<Qid, RouterError>,
    ) -> bool {
        &&& after.spec_connection() == self.spec_connection()
        &&& after.spec_challenge() == self.spec_challenge()
        &&& if !queued {
            &&& outcome == Err::<Qid, RouterError>(RouterError::WriterStopped)
            &&& after.spec_inbound() == self.spec_inbound()
            &&& table_after == table
        } else {
            exists|committed: Result<Qid, Error>|
                {
                    &&& #[trigger] self.spec_inbound().commits(after.spec_inbound(), committed)
                    &&& match committed {
                        Err(error) => {
                            &&& outcome == Err::<Qid, RouterError>(RouterError::Io(error))
                            &&& table_after == table
                        },
                        Ok(qid) => {
                            &&& outcome == Ok::<Qid, RouterError>(qid)
                            &&& table_after == table.insert(qid@, self.spec_connection())
                        },
                    }
                }
        }
    }

    /// What the next read may take: it is bounded by the open challenge, if there is one.
    pub fn read_limit(&self) -> (limit: ReadLimit)
        ensures
            limit == self.reads_within(),
            limit == match self.spec_challenge() {
                Some(deadline) => ReadLimit::Until(deadline),
                None => ReadLimit::Assembly(FRAME_ASSEMBLY_TIMEOUT),
            },
    {
        match self.challenge {
            Some(deadline) => ReadLimit::Until(deadline),
            None => ReadLimit::Assembly(FRAME_ASSEMBLY_TIMEOUT),
        }
    }

    /// Opens a packet and tells what is to be done about it.
    pub fn handle_inbound<V, D, R>(
        &mut self,
        table: &Table,
        packet: Frame,
        verify: V,
        decode_bundle: D,
        decode_header: R,
    ) -> (outcome: Result<Step, RouterError>) where
        V: FnOnce(&SessionKey, u64, &[u8], &[u8]) -> bool,
        D: FnOnce(&[u8]) -> Result<(PeerBundle, usize), String>,
        R: FnOnce(&[u8]) -> Result<RecordHeader, String>,

        requires
            old(self).well_formed(),
            forall|key: &SessionKey, counter: u64, bytes: &[u8], tag: &[u8]|
                call_requires(verify, (key, counter, bytes, tag)),
            forall|bytes: &[u8]| call_requires(decode_bundle, (bytes,)),
            forall|bytes: &[u8]| call_requires(decode_header, (bytes,)),
        ensures
            old(self).handles(
                table@,
                packet@,
                verify,
                decode_bundle,
                decode_header,
                *final(self),
                outcome,
            ),
            final(self).well_formed(),
            final(self).spec_connection() == old(self).spec_connection(),
            final(self).spec_challenge() == old(self).spec_challenge(),
            final(self).spec_inbound().same_routes(old(self).spec_inbound()),
            old(self).spec_inbound().spec_transition() is Verified ==> {
                &&& outcome == Err::<Step, RouterError>(RouterError::Io(Error::RouteNotCommitted))
                &&& final(self).spec_inbound().spec_secure()
                    == old(self).spec_inbound().spec_secure()
            },
            !(old(self).spec_inbound().spec_transition() is Verified) ==> exists|
                opened: Result<(PacketKind, Vec<u8>), Error>,
                action: Result<RouterAction, Error>,
            |
                {
                    &&& #[trigger] opens(
                        old(self).spec_inbound().spec_secure(),
                        packet@,
                        verify,
                        final(self).spec_inbound().spec_secure(),
                        opened,
                    )
                    &&& match opened {
                        Err(error) => action_failed(action, error),
                        Ok((kind, payload)) => old(self).spec_inbound().acts(
                            kind,
                            payload,
                            decode_bundle,
                            decode_header,
                            action,
                        ),
                    }
                    &&& #[trigger] step_of(table@, action, outcome)
                },
            outcome matches Ok(Step::Verify(_)) ==> final(self).spec_challenge() is Some,
            outcome matches Ok(Step::Challenge(_)) ==> final(self).spec_challenge() is None,
    {
        let action = self.inbound.receive(packet, verify, decode_bundle, decode_header);
        let ghost seen = action;
        let outcome = handle_action(table, action);
        assert(step_of(table@, seen, outcome));
        assert(old(self).spec_inbound().receives(
            packet@,
            verify,
            decode_bundle,
            decode_header,
            self.spec_inbound(),
            seen,
        ));
        outcome
    }

    /// Challenges the identity of a bundle, if a challenge is admitted, and sets the time by
    /// which it has to be answered. `validate` and `challenge` are as for
    /// `RouterConnection::begin_challenge`.
    pub fn challenge<A, N>(
        &mut self,
        admitted: bool,
        bundle: PeerBundle,
        now: u64,
        validate: A,
        challenge: N,
    ) -> (outcome: Result<(Qid, Vec<u8>), RouterError>) where
        A: FnOnce(&PeerBundle) -> Result<(), String>,
        N: FnOnce(PeerBundle, u32) -> Result<(C, Vec<u8>), String>,

        requires
            old(self).well_formed(),
            now + HANDSHAKE_TIMEOUT * SECOND <= u64::MAX,
            forall|bundle: &PeerBundle| call_requires(validate, (bundle,)),
            forall|bundle: PeerBundle, id: u32| call_requires(challenge, (bundle, id)),
        ensures
            old(self).challenged(
                admitted,
                bundle,
                now,
                validate,
                challenge,
                *final(self),
                outcome,
            ),
            final(self).well_formed(),
            final(self).spec_connection() == old(self).spec_connection(),
            final(self).spec_inbound().spec_routes() == old(self).spec_inbound().spec_routes(),
            final(self).spec_inbound().spec_identity() == old(
                self,
            ).spec_inbound().spec_identity(),
            final(self).spec_inbound().spec_secure() == old(self).spec_inbound().spec_secure(),
            old(self).spec_inbound().within_limit() ==> final(self).spec_inbound().within_limit(),
            outcome is Err ==> {
                &&& final(self).spec_challenge() == old(self).spec_challenge()
                &&& final(self).spec_inbound().same_routes(old(self).spec_inbound())
            },
            outcome is Ok ==> final(self).spec_challenge() == Some(
                (now + HANDSHAKE_TIMEOUT * SECOND) as u64,
            ),
            !admitted ==> outcome == Err::<(Qid, Vec<u8>), RouterError>(
                RouterError::HandshakeOverloaded,
            ),
            admitted && !(old(self).spec_inbound().spec_transition() is Ready) ==> outcome == Err::<
                (Qid, Vec<u8>),
                RouterError,
            >(RouterError::Io(Error::TransitionActive)),
            admitted && old(self).spec_inbound().spec_transition() is Ready ==> exists|
                valid: Result<(), String>,
                begun: Result<(Qid, Vec<u8>), Error>,
            |
                {
                    &&& #[trigger] call_ensures(validate, (&bundle,), valid)
                    &&& match valid {
                        Err(text) => begun == Err::<(Qid, Vec<u8>), Error>(Error::Rejected(text)),
                        Ok(_) => old(self).spec_inbound().challenges(
                            bundle,
                            challenge,
                            final(self).spec_inbound(),
                            begun,
                        ),
                    }
                    &&& #[trigger] io_of(begun, outcome)
                },
    {
        if !admitted {
            return Err(RouterError::HandshakeOverloaded);
        }
        let deadline: u64 = now + HANDSHAKE_TIMEOUT * SECOND;
        let begun = self.inbound.begin_challenge(bundle, validate, challenge);
        let ghost seen = begun;
        let outcome = match begun {
            Err(error) => Err(RouterError::Io(error)),
            Ok(begun) => {
                self.challenge = Some(deadline);
                Ok(begun)
            },
        };
        assert(io_of(seen, outcome));
        outcome
    }

    /// Checks the answer to the challenge, whose time stops running. `verify` is as for
    /// `RouterConnection::verify_route`.
    pub fn verify<V>(&mut self, record: &[u8], verify: V) -> (outcome: Result<
        Vec<u8>,
        RouterError,
    >) where V: FnOnce(C, &[u8]) -> Result<(Qid, Vec<u8>), String>
        requires
            old(self).well_formed(),
            forall|challenge: C, record: &[u8]| call_requires(verify, (challenge, record)),
        ensures
            old(self).verified(record, verify, *final(self), outcome),
            final(self).well_formed(),
            final(self).spec_connection() == old(self).spec_connection(),
            final(self).spec_challenge() is None,
            final(self).spec_inbound().spec_routes() == old(self).spec_inbound().spec_routes(),
            final(self).spec_inbound().spec_identity() == old(
                self,
            ).spec_inbound().spec_identity(),
            final(self).spec_inbound().spec_secure() == old(self).spec_inbound().spec_secure(),
            final(self).spec_inbound().spec_next_handshake_id() == old(
                self,
            ).spec_inbound().spec_next_handshake_id(),
            match old(self).spec_inbound().spec_transition() {
                RouteTransition::Challenging(challenge, challenged) => exists|
                    verified: Result<(Qid, Vec<u8>), String>,
                |
                    {
                        &&& #[trigger] call_ensures(verify, (challenge, record), verified)
                        &&& match verified {
                            Err(text) => {
                                &&& outcome == Err::<Vec<u8>, RouterError>(
                                    RouterError::Io(Error::Rejected(text)),
                                )
                                &&& final(self).spec_inbound().spec_transition() is Ready
                            },
                            Ok((qid, acceptance)) => {
                                &&& outcome == Ok::<Vec<u8>, RouterError>(acceptance)
                                &&& final(self).spec_inbound().spec_transition()
                                    == RouteTransition::<C>::Verified(qid)
                                &&& old(self).spec_inbound().within_limit() && qid@ == challenged@
                                    ==> final(self).spec_inbound().within_limit()
                            },
                        }
                    },
                _ => {
                    &&& outcome == Err::<Vec<u8>, RouterError>(RouterError::Protocol)
                    &&& final(self).spec_inbound().spec_transition() == old(
                        self,
                    ).spec_inbound().spec_transition()
                },
            },
    {
        if self.challenge.take().is_none() {
            return Err(RouterError::Protocol);
        }
        let answered = self.inbound.verify_route(record, verify);
        let ghost seen = answered;
        assert(old(self).spec_inbound().verifies(record, verify, self.spec_inbound(), seen));
        match answered {
            Err(error) => Err(RouterError::Io(error)),
            Ok(acceptance) => Ok(acceptance),
        }
    }

    /// Publishes the route that was verified, once its acceptance record is queued: from now
    /// on the table leads to this connection, whichever one it led to before.
    pub fn publish(&mut self, table: &mut Table, queued: bool) -> (outcome: Result<
        Qid,
        RouterError,
    >)
        requires
            old(self).well_formed(),
        ensures
            old(self).published(old(table)@, queued, *final(self), final(table)@, outcome),
            final(self).well_formed(),
            final(self).spec_connection() == old(self).spec_connection(),
            final(self).spec_challenge() == old(self).spec_challenge(),
            final(self).spec_inbound().spec_identity() == old(
                self,
            ).spec_inbound().spec_identity(),
            final(self).spec_inbound().spec_secure() == old(self).spec_inbound().spec_secure(),
            final(self).spec_inbound().spec_next_handshake_id() == old(
                self,
            ).spec_inbound().spec_next_handshake_id(),
            old(self).spec_inbound().within_limit() ==> final(self).spec_inbound().within_limit(),
            old(self).owns_its_routes(old(table)@) ==> final(self).owns_its_routes(final(table)@),
            outcome is Err ==> {
                &&& final(table)@ == old(table)@
                &&& final(self).spec_inbound().same_routes(old(self).spec_inbound())
            },
            match old(self).spec_inbound().spec_transition() {
                _ if !queued => outcome == Err::<Qid, RouterError>(RouterError::WriterStopped),
                RouteTransition::Verified(qid) => {
                    &&& outcome matches Ok(published)
                    &&& published@ == qid@
                    &&& final(table)@ == old(table)@.insert(qid@, old(self).spec_connection())
                    &&& final(self).spec_inbound().spec_transition() is Ready
                    &&& final(self).spec_inbound().spec_routes() == if old(
                        self,
                    ).spec_inbound().spec_routes().contains(qid@) {
                        old(self).spec_inbound().spec_routes()
                    } else {
                        old(self).spec_inbound().spec_routes().push(qid@)
                    }
                },
                _ => outcome == Err::<Qid, RouterError>(RouterError::Io(Error::NoVerifiedRoute)),
            },
    {
        if !queued {
            return Err(RouterError::WriterStopped);
        }
        let ghost routes = self.inbound.spec_routes();
        let committed = self.inbound.commit_route();
        let ghost seen = committed;
        assert(old(self).spec_inbound().commits(self.spec_inbound(), seen));
        match committed {
            Err(error) => Err(RouterError::Io(error)),
            Ok(qid) => {
                table.insert(qid.clone(), self.connection);
                proof {
                    let now = self.inbound.spec_routes();
                    assert(forall|other: Seq<u8>|
                        routes.contains(other) ==> now.contains(other)) by {
                        assert forall|other: Seq<u8>| routes.contains(other) implies now.contains(
                            other,
                        ) by {
                            assert(now[routes.index_of(other)] == other);
                        }
                    }
                    assert(now.contains(qid@)) by {
                        if !routes.contains(qid@) {
                            assert(now[routes.len() as int] == qid@);
                        }
                    }
                }
                Ok(qid)
            },
        }
    }

    /// Withdraws the routes of a connection that ended. A route that another connection has
    /// taken over since stays.
    pub fn close(&self, table: &mut Table)
        ensures
            final(table)@ == withdrawn(
                old(table)@,
                self.spec_inbound().spec_routes(),
                self.spec_connection(),
            ),
            self.owns_its_routes(old(table)@) ==> forall|qid: Seq<u8>| #[trigger]
                final(table)@.contains_key(qid) ==> final(table)@[qid] != self.spec_connection(),
    {
        let routes = self.inbound.routes();
        table.withdraw(&routes, self.connection);
    }
}

/// An outcome of the transport as the router's.
pub open spec fn io_of(
    begun: Result<(Qid, Vec<u8>), Error>,
    outcome: Result<(Qid, Vec<u8>), RouterError>,
) -> bool {
    match begun {
        Err(error) => outcome == Err::<(Qid, Vec<u8>), RouterError>(RouterError::Io(error)),
        Ok(begun) => outcome == Ok::<(Qid, Vec<u8>), RouterError>(begun),
    }
}

/// A record that the router hands on is the whole payload that came, unchanged; its sender
/// authenticated on the connection that it came by, it is not for the router itself, and it
/// goes to the connection that serves its recipient.
pub proof fn law_records_are_carried_unchanged<C, D, R>(
    from: RouterConnection<C>,
    table: Map<Seq<u8>, u64>,
    payload: Vec<u8>,
    decode_bundle: D,
    decode_header: R,
    action: Result<RouterAction, Error>,
    outcome: Result<Step, RouterError>,
) where
    D: FnOnce(&[u8]) -> Result<(PeerBundle, usize), String>,
    R: FnOnce(&[u8]) -> Result<RecordHeader, String>,

    requires
        from.acts(PacketKind::Record, payload, decode_bundle, decode_header, action),
        step_of(table, action, outcome),
        outcome matches Ok(Step::Deliver { .. }),
    ensures
        outcome matches Ok(Step::Deliver { connection, record }) && record == payload && exists|
            bytes: &[u8],
            header: RecordHeader,
        |
            {
                &&& bytes@ == payload@
                &&& #[trigger] call_ensures(decode_header, (bytes,), Ok(header))
                &&& from.spec_routes().contains(header.route.sender@)
                &&& header.route.recipient@ != from.spec_identity()
                &&& table.contains_key(header.route.recipient@)
                &&& table[header.route.recipient@] == connection
            },
{
}

/// Who authenticates an identity last serves it, and goes on serving it when the
/// connection that served it before ends, even if that one had proved the identity too.
/// The identities of other connections are not touched.
pub proof fn law_takeover(
    table: Map<Seq<u8>, u64>,
    qid: Seq<u8>,
    older: u64,
    newer: u64,
    older_routes: Seq<Seq<u8>>,
    other: Seq<u8>,
)
    requires
        older != newer,
    ensures
        ({
            let published = table.insert(qid, older).insert(qid, newer);
            let closed = withdrawn(published, older_routes, older);
            &&& published[qid] == newer
            &&& closed.contains_key(qid)
            &&& closed[qid] == newer
            &&& table.contains_key(other) && table[other] != older ==> closed.contains_key(other)
                && closed[other] == published[other]
        }),
{
}

/// An identity that was taken over can be reclaimed by the older connection, which then
/// keeps it when the newer one ends.
pub proof fn law_reclaim(
    table: Map<Seq<u8>, u64>,
    qid: Seq<u8>,
    older: u64,
    newer: u64,
    newer_routes: Seq<Seq<u8>>,
)
    requires
        older != newer,
    ensures
        ({
            let published = table.insert(qid, older).insert(qid, newer).insert(qid, older);
            let closed = withdrawn(published, newer_routes, newer);
            closed.contains_key(qid) && closed[qid] == older
        }),
{
    law_takeover(table.insert(qid, older), qid, newer, older, newer_routes, qid);
}

/// What one connection publishes or withdraws leaves every other connection with routes
/// that it proved.
pub proof fn law_others_keep_their_routes<C>(
    serving: Serving<C>,
    table: Map<Seq<u8>, u64>,
    qid: Seq<u8>,
    connection: u64,
    routes: Seq<Seq<u8>>,
)
    requires
        serving.owns_its_routes(table),
        connection != serving.spec_connection(),
    ensures
        serving.owns_its_routes(table.insert(qid, connection)),
        serving.owns_its_routes(withdrawn(table, routes, connection)),
{
    assert forall|other: Seq<u8>| #[trigger]
        table.insert(qid, connection).contains_key(other) && table.insert(qid, connection)[other]
            == serving.spec_connection() implies serving.spec_inbound().spec_routes().contains(
        other,
    ) by {
        assert(table.contains_key(other));
    }
    assert forall|other: Seq<u8>| #[trigger]
        withdrawn(table, routes, connection).contains_key(other) && withdrawn(
            table,
            routes,
            connection,
        )[other] == serving.spec_connection() implies serving.spec_inbound().spec_routes().contains(
        other,
    ) by {
        assert(table.contains_key(other));
    }
}

} // verus!
