//! What is promised of the router: which records it carries, whom it challenges, and whose
//! routes it keeps.
use vstd::prelude::*;

use crate::error::Error;
use crate::protocol::connection::{RouteTransition, RouterAction, RouterConnection};
use crate::protocol::record::{PeerBundle, RecordHeader};
use crate::protocol::wire::{PacketKind, MAX_ROUTES_PER_CONNECTION};
use crate::qid::Qid;
use crate::protocol::secure::{
    authenticated, checks_by, law_unpacked_is_packed, opens, packet, SessionKey,
};
use crate::router::{
    confirmed, following, io_of, step_of, workers_for, ReadLimit, RouterError, Serving, Step,
    ACCEPT_RETRY_DELAY, FRAME_ASSEMBLY_TIMEOUT, HANDSHAKE_TIMEOUT, KEEPALIVE_IDLE,
    KEEPALIVE_INTERVAL, MAX_PENDING_HANDSHAKES, MAX_PENDING_TRANSPORTS, OUTBOUND_QUEUE_SIZE,
    SECOND, WRITE_TIMEOUT,
};
use crate::table::withdrawn;
use crate::DEFAULT_ADDRESS;

verus! {

/// Every record of a sender that authenticated on the connection is carried: if it is not for
/// the router itself it is forwarded, as it came, whatever its type, version and length are,
/// and goes to the connection that serves its recipient, if there is one.
pub proof fn law_authenticated_records_are_carried<C, D, R>(
    from: RouterConnection<C>,
    table: Map<Seq<u8>, u64>,
    payload: Vec<u8>,
    decode_bundle: D,
    decode_header: R,
    header: RecordHeader,
    action: Result<RouterAction, Error>,
    outcome: Result<Step, RouterError>,
) where
    D: FnOnce(&[u8]) -> Result<(PeerBundle, usize), String>,
    R: FnOnce(&[u8]) -> Result<RecordHeader, String>,

    requires
        forall|bytes: &[u8], decoded: Result<RecordHeader, String>|
            bytes@ == payload@ && #[trigger] call_ensures(decode_header, (bytes,), decoded)
                ==> decoded == Ok::<RecordHeader, String>(header),
        from.spec_routes().contains(header.route.sender@),
        header.route.recipient@ != from.spec_identity(),
        from.acts(PacketKind::Record, payload, decode_bundle, decode_header, action),
        step_of(table, action, outcome),
    ensures
        action == Ok::<RouterAction, Error>(
            RouterAction::Forward {
                sender: header.route.sender,
                recipient: header.route.recipient,
                record: payload,
            },
        ),
        forall|connection: u64|
            table.contains_pair(header.route.recipient@, connection) ==> outcome == Ok::<
                Step,
                RouterError,
            >(Step::Deliver { connection, record: payload }),
        !table.contains_key(header.route.recipient@) ==> outcome == Ok::<Step, RouterError>(
            Step::NoRoute { sender: header.route.sender, recipient: header.route.recipient },
        ),
{
}

/// A record whose sender did not authenticate on the connection is dropped with the two
/// identities that it names, once the connection has attached or attaches.
pub proof fn law_unauthenticated_records_are_dropped<C, D, R>(
    from: RouterConnection<C>,
    table: Map<Seq<u8>, u64>,
    payload: Vec<u8>,
    decode_bundle: D,
    decode_header: R,
    header: RecordHeader,
    action: Result<RouterAction, Error>,
    outcome: Result<Step, RouterError>,
) where
    D: FnOnce(&[u8]) -> Result<(PeerBundle, usize), String>,
    R: FnOnce(&[u8]) -> Result<RecordHeader, String>,

    requires
        forall|bytes: &[u8], decoded: Result<RecordHeader, String>|
            bytes@ == payload@ && #[trigger] call_ensures(decode_header, (bytes,), decoded)
                ==> decoded == Ok::<RecordHeader, String>(header),
        !from.spec_routes().contains(header.route.sender@),
        header.route.recipient@ != from.spec_identity(),
        from.spec_routes().len() > 0 || !(from.spec_transition() is Ready),
        from.acts(PacketKind::Record, payload, decode_bundle, decode_header, action),
        step_of(table, action, outcome),
    ensures
        outcome == Ok::<Step, RouterError>(
            Step::Unauthenticated {
                sender: header.route.sender,
                recipient: header.route.recipient,
            },
        ),
{
}

/// A record for the router itself is the answer to the challenge that is open, and is checked
/// as it came, whoever its sender is; without a challenge it is refused.
pub proof fn law_records_for_the_router_are_answers<C, D, R>(
    from: RouterConnection<C>,
    table: Map<Seq<u8>, u64>,
    payload: Vec<u8>,
    decode_bundle: D,
    decode_header: R,
    header: RecordHeader,
    action: Result<RouterAction, Error>,
    outcome: Result<Step, RouterError>,
) where
    D: FnOnce(&[u8]) -> Result<(PeerBundle, usize), String>,
    R: FnOnce(&[u8]) -> Result<RecordHeader, String>,

    requires
        forall|bytes: &[u8], decoded: Result<RecordHeader, String>|
            bytes@ == payload@ && #[trigger] call_ensures(decode_header, (bytes,), decoded)
                ==> decoded == Ok::<RecordHeader, String>(header),
        header.route.recipient@ == from.spec_identity(),
        from.acts(PacketKind::Record, payload, decode_bundle, decode_header, action),
        step_of(table, action, outcome),
    ensures
        from.spec_transition() is Challenging ==> outcome == Ok::<Step, RouterError>(
            Step::Verify(payload),
        ),
        from.spec_transition() is Verified ==> outcome == Err::<Step, RouterError>(
            RouterError::Io(Error::NoChallenge),
        ),
        from.spec_transition() is Ready ==> outcome == Err::<Step, RouterError>(
            RouterError::Io(
                if from.spec_routes().len() == 0 {
                    Error::NotAttached
                } else {
                    Error::NoChallenge
                },
            ),
        ),
{
}

/// An attachment is taken exactly while none is in progress and its bundle is read to its
/// last byte: that bundle is then challenged, however many routes the connection has. Records
/// before the first attachment, records without a header and stray confirmations are refused.
pub proof fn law_other_packets<C, D, R>(
    from: RouterConnection<C>,
    table: Map<Seq<u8>, u64>,
    kind: PacketKind,
    payload: Vec<u8>,
    decode_bundle: D,
    decode_header: R,
    bundle: Result<(PeerBundle, usize), String>,
    text: String,
    action: Result<RouterAction, Error>,
    outcome: Result<Step, RouterError>,
) where
    D: FnOnce(&[u8]) -> Result<(PeerBundle, usize), String>,
    R: FnOnce(&[u8]) -> Result<RecordHeader, String>,

    requires
        forall|bytes: &[u8], decoded: Result<(PeerBundle, usize), String>|
            bytes@ == payload@ && #[trigger] call_ensures(decode_bundle, (bytes,), decoded)
                ==> decoded == bundle,
        forall|bytes: &[u8], decoded: Result<RecordHeader, String>|
            bytes@ == payload@ && #[trigger] call_ensures(decode_header, (bytes,), decoded)
                ==> decoded == Err::<RecordHeader, String>(text),
        from.acts(kind, payload, decode_bundle, decode_header, action),
        step_of(table, action, outcome),
    ensures
        kind == PacketKind::Confirm ==> outcome == Err::<Step, RouterError>(
            RouterError::Io(Error::UnexpectedPacket),
        ),
        kind == PacketKind::Attach && !(from.spec_transition() is Ready) ==> outcome == Err::<
            Step,
            RouterError,
        >(RouterError::Io(Error::ChallengeActive)),
        kind == PacketKind::Attach && from.spec_transition() is Ready ==> match bundle {
            Ok((peer, trailing)) => if trailing == 0 {
                outcome == Ok::<Step, RouterError>(Step::Challenge(peer))
            } else {
                outcome == Err::<Step, RouterError>(RouterError::Io(Error::InvalidAttachment))
            },
            Err(text) => outcome == Err::<Step, RouterError>(
                RouterError::Io(Error::Rejected(text)),
            ),
        },
        kind == PacketKind::Record ==> outcome == Err::<Step, RouterError>(
            RouterError::Io(
                if from.spec_routes().len() == 0 && from.spec_transition() is Ready {
                    Error::NotAttached
                } else {
                    Error::Rejected(text)
                },
            ),
        ),
{
}

/// A valid bundle is challenged, under the connection's next number, whenever the connection
/// has fewer than 64 routes or owns the identity already; the number is used up. Only a full
/// connection, the end of the numbers and the maker of the challenge can stand in the way,
/// and then the connection keeps its state.
pub proof fn law_valid_bundles_are_challenged<C, N>(
    before: RouterConnection<C>,
    bundle: PeerBundle,
    challenge: N,
    made: Result<(C, Vec<u8>), String>,
    after: RouterConnection<C>,
    outcome: Result<(Qid, Vec<u8>), Error>,
) where N: FnOnce(PeerBundle, u32) -> Result<(C, Vec<u8>), String>
    requires
        forall|result: Result<(C, Vec<u8>), String>| #[trigger]
            call_ensures(challenge, (bundle, before.spec_next_handshake_id()), result) ==> result
                == made,
        before.spec_routes().len() <= 64,
        before.challenges(bundle, challenge, after, outcome),
    ensures
        before.spec_routes().len() == 64 && !before.spec_routes().contains(bundle.qid@) ==> outcome
            == Err::<(Qid, Vec<u8>), Error>(Error::RouteLimit),
        before.spec_routes().len() < 64 || before.spec_routes().contains(bundle.qid@) ==> if (
        before.spec_next_handshake_id() == u32::MAX) {
            outcome == Err::<(Qid, Vec<u8>), Error>(Error::HandshakeIdExhausted)
        } else {
            match made {
                Err(text) => outcome == Err::<(Qid, Vec<u8>), Error>(Error::Rejected(text)),
                Ok((challenge, request)) => {
                    &&& outcome matches Ok((qid, sent))
                    &&& qid@ == bundle.qid@
                    &&& sent == request
                    &&& after.spec_transition() == RouteTransition::Challenging(
                        challenge,
                        Ghost(bundle.qid@),
                    )
                    &&& after.spec_next_handshake_id() == before.spec_next_handshake_id() + 1
                },
            }
        },
        MAX_ROUTES_PER_CONNECTION == 64,
{
}

/// The check of an answer decides alone: what it accepts is accepted, with its acceptance and
/// the identity that it gives, whatever the answer's length is; what it refuses is refused in
/// its words. Either way the challenge is over, and the routes stay.
pub proof fn law_check_decides_on_an_answer<C, V>(
    before: RouterConnection<C>,
    challenge: C,
    record: &[u8],
    verify: V,
    verified: Result<(Qid, Vec<u8>), String>,
    after: RouterConnection<C>,
    outcome: Result<Vec<u8>, Error>,
) where V: FnOnce(C, &[u8]) -> Result<(Qid, Vec<u8>), String>
    requires
        before.spec_transition() matches RouteTransition::Challenging(open, _) && open == challenge,
        forall|result: Result<(Qid, Vec<u8>), String>| #[trigger]
            call_ensures(verify, (challenge, record), result) ==> result == verified,
        before.verifies(record, verify, after, outcome),
    ensures
        match verified {
            Ok((qid, acceptance)) => {
                &&& outcome == Ok::<Vec<u8>, Error>(acceptance)
                &&& after.spec_transition() == RouteTransition::<C>::Verified(qid)
            },
            Err(text) => {
                &&& outcome == Err::<Vec<u8>, Error>(Error::Rejected(text))
                &&& after.spec_transition() == RouteTransition::<C>::Ready
            },
        },
        after.spec_routes() == before.spec_routes(),
        after.spec_identity() == before.spec_identity(),
{
}

/// A proved identity is always committed: it is among the routes from then on, with every
/// route that was there, and nothing else.
pub proof fn law_proved_identity_becomes_a_route<C>(
    before: RouterConnection<C>,
    proved: Qid,
    after: RouterConnection<C>,
    outcome: Result<Qid, Error>,
)
    requires
        before.spec_transition() == RouteTransition::<C>::Verified(proved),
        before.spec_routes().no_duplicates(),
        before.commits(after, outcome),
    ensures
        outcome matches Ok(qid) && qid@ == proved@,
        after.spec_routes().no_duplicates(),
        after.spec_routes().to_set() == before.spec_routes().to_set().insert(proved@),
        before.spec_routes().is_prefix_of(after.spec_routes()),
        after.spec_transition() == RouteTransition::<C>::Ready,
{
    let old_routes = before.spec_routes();
    let routes = after.spec_routes();
    if old_routes.contains(proved@) {
        assert(routes.to_set() =~= old_routes.to_set().insert(proved@));
    } else {
        assert(routes == old_routes.push(proved@));
        assert forall|qid: Seq<u8>|
            routes.to_set().contains(qid) <==> old_routes.to_set().insert(proved@).contains(
                qid,
            ) by {
            if old_routes.contains(qid) {
                assert(routes[old_routes.index_of(qid)] == qid);
            }
            assert(routes[old_routes.len() as int] == proved@);
        }
        assert(routes.to_set() =~= old_routes.to_set().insert(proved@));
    }
}

/// The end of a connection takes out of the table exactly the identities that it proved and
/// still serves; every other one leads where it led.
pub proof fn law_only_served_routes_are_withdrawn(
    table: Map<Seq<u8>, u64>,
    routes: Seq<Seq<u8>>,
    connection: u64,
    qid: Seq<u8>,
    serves: u64,
)
    ensures
        withdrawn(table, routes, connection).contains_pair(qid, serves) <==> table.contains_pair(
            qid,
            serves,
        ) && (serves != connection || !routes.contains(qid)),
{
}

/// The set-up of a transport is confirmed by an empty confirmation packet and by nothing
/// else; what the transport refuses is reported as its error.
pub proof fn law_empty_confirmation_ends_the_set_up(
    kind: PacketKind,
    payload: Vec<u8>,
    error: Error,
)
    ensures
        confirmed(Ok((kind, payload))) is Ok <==> kind is Confirm && payload@.len() == 0,
        confirmed(Ok((kind, payload))) matches Err(refused) ==> refused == RouterError::Protocol,
        confirmed(Err(error)) == Err::<(), RouterError>(RouterError::Io(error)),
{
}

/// The router reports what the transport makes of a challenge, unchanged.
pub proof fn law_challenge_outcome_is_reported(
    begun: Result<(Qid, Vec<u8>), Error>,
    outcome: Result<(Qid, Vec<u8>), RouterError>,
)
    requires
        io_of(begun, outcome),
    ensures
        begun matches Ok((qid, request)) ==> outcome == Ok::<(Qid, Vec<u8>), RouterError>(
            (qid, request),
        ),
        begun matches Err(error) ==> outcome == Err::<(Qid, Vec<u8>), RouterError>(
            RouterError::Io(error),
        ),
{
}

/// The router's limits: times are in seconds but for the clock's second, which is in
/// nanoseconds.
pub proof fn law_router_limits()
    ensures
        OUTBOUND_QUEUE_SIZE == 4,
        MAX_PENDING_HANDSHAKES == 1024,
        MAX_PENDING_TRANSPORTS == 512,
        HANDSHAKE_TIMEOUT == 5,
        FRAME_ASSEMBLY_TIMEOUT == 5,
        WRITE_TIMEOUT == 30,
        KEEPALIVE_IDLE == 60,
        KEEPALIVE_INTERVAL == 30,
        SECOND == 1_000_000_000,
        ACCEPT_RETRY_DELAY == 100,
        DEFAULT_ADDRESS@ == "127.0.0.1:7447"@,
{
}

/// A record that is sealed in its turn reaches its recipient: of a sender that authenticated
/// on the connection, for an identity that some connection serves, of any type and version and
/// of up to 8192 bytes, it is delivered to that connection as it was sealed. Nothing changes
/// on the connection that it came by, but that its next packet is expected.
pub proof fn law_sealed_record_reaches_its_recipient<C, V, D, R>(
    mac: spec_fn(SessionKey, u64, Seq<u8>) -> Seq<u8>,
    before: Serving<C>,
    table: Map<Seq<u8>, u64>,
    number: u64,
    record: Seq<u8>,
    header: RecordHeader,
    to: u64,
    verify: V,
    decode_bundle: D,
    decode_header: R,
    after: Serving<C>,
    outcome: Result<Step, RouterError>,
) where
    V: FnOnce(&SessionKey, u64, &[u8], &[u8]) -> bool,
    D: FnOnce(&[u8]) -> Result<(PeerBundle, usize), String>,
    R: FnOnce(&[u8]) -> Result<RecordHeader, String>,

    requires
        checks_by(verify, mac),
        record.len() <= 8192,
        before.spec_inbound().spec_secure().spec_counter() == Some(number),
        number < u64::MAX,
        !(before.spec_inbound().spec_transition() is Verified),
        before.spec_inbound().spec_routes().contains(header.route.sender@),
        header.route.recipient@ != before.spec_inbound().spec_identity(),
        table.contains_pair(header.route.recipient@, to),
        forall|bytes: &[u8], decoded: Result<RecordHeader, String>|
            bytes@ == record && #[trigger] call_ensures(decode_header, (bytes,), decoded)
                ==> decoded == Ok::<RecordHeader, String>(header),
        ({
            let key = before.spec_inbound().spec_secure().spec_key();
            let tag = mac(key, number, authenticated(PacketKind::Record, record));
            &&& tag.len() == 16
            &&& before.handles(
                table,
                packet(PacketKind::Record, record, tag),
                verify,
                decode_bundle,
                decode_header,
                after,
                outcome,
            )
        }),
    ensures
        outcome matches Ok(Step::Deliver { connection, record: delivered }) && connection == to
            && delivered@ == record,
        after.spec_inbound().spec_routes() == before.spec_inbound().spec_routes(),
        after.spec_inbound().spec_transition() == before.spec_inbound().spec_transition(),
        after.spec_inbound().spec_secure().spec_counter() == Some((number + 1) as u64),
        after.spec_challenge() == before.spec_challenge(),
        after.spec_connection() == before.spec_connection(),
{
    let key = before.spec_inbound().spec_secure().spec_key();
    let tag = mac(key, number, authenticated(PacketKind::Record, record));
    let frame = packet(PacketKind::Record, record, tag);
    law_unpacked_is_packed(PacketKind::Record, record, tag, PacketKind::Record, record);
    let action = choose|action: Result<RouterAction, Error>|
        {
            &&& #[trigger] before.spec_inbound().receives(
                frame,
                verify,
                decode_bundle,
                decode_header,
                after.spec_inbound(),
                action,
            )
            &&& step_of(table, action, outcome)
        };
    let opened = choose|opened: Result<(PacketKind, Vec<u8>), Error>|
        {
            &&& #[trigger] opens(
                before.spec_inbound().spec_secure(),
                frame,
                verify,
                after.spec_inbound().spec_secure(),
                opened,
            )
            &&& match opened {
                Err(error) => crate::protocol::connection::action_failed(action, error),
                Ok((kind, payload)) => before.spec_inbound().acts(
                    kind,
                    payload,
                    decode_bundle,
                    decode_header,
                    action,
                ),
            }
        };
    assert(opens(
        before.spec_inbound().spec_secure(),
        frame,
        verify,
        after.spec_inbound().spec_secure(),
        opened,
    ));
    assert(opened is Ok);
    let payload = (opened->Ok_0).1;
    assert(payload@ == record);
    law_authenticated_records_are_carried(
        before.spec_inbound(),
        table,
        payload,
        decode_bundle,
        decode_header,
        header,
        action,
        outcome,
    );
    assert(table.contains_pair(header.route.recipient@, to));
}

/// While a proved identity waits to be committed every packet is refused, and stays unopened;
/// at any other time what cannot be opened is refused for the reason that the transport gives.
pub proof fn law_packets_wait_for_the_commitment<C, V, D, R>(
    before: Serving<C>,
    table: Map<Seq<u8>, u64>,
    packet: Seq<u8>,
    verify: V,
    decode_bundle: D,
    decode_header: R,
    after: Serving<C>,
    outcome: Result<Step, RouterError>,
) where
    V: FnOnce(&SessionKey, u64, &[u8], &[u8]) -> bool,
    D: FnOnce(&[u8]) -> Result<(PeerBundle, usize), String>,
    R: FnOnce(&[u8]) -> Result<RecordHeader, String>,

    requires
        before.handles(table, packet, verify, decode_bundle, decode_header, after, outcome),
    ensures
        before.spec_inbound().spec_transition() is Verified ==> {
            &&& outcome == Err::<Step, RouterError>(RouterError::Io(Error::RouteNotCommitted))
            &&& after.spec_inbound().spec_secure() == before.spec_inbound().spec_secure()
        },
        !(before.spec_inbound().spec_transition() is Verified)
            && before.spec_inbound().spec_secure().spec_counter() is None ==> outcome == Err::<
            Step,
            RouterError,
        >(RouterError::Io(Error::ReceiverFailed)),
        after.spec_inbound().spec_routes() == before.spec_inbound().spec_routes(),
        after.spec_inbound().spec_identity() == before.spec_inbound().spec_identity(),
        after.spec_inbound().spec_transition() == before.spec_inbound().spec_transition(),
{
}

/// A challenge that is admitted, of a valid bundle, on a connection that attaches nothing else
/// and has room, is begun, and has to be answered within five seconds. What is not admitted is
/// an overload, and changes nothing; a bundle that is not valid is refused in the words of its
/// check.
pub proof fn law_admitted_challenges_are_begun<C, A, N>(
    before: Serving<C>,
    admitted: bool,
    bundle: PeerBundle,
    now: u64,
    validate: A,
    valid: Result<(), String>,
    challenge: N,
    made: Result<(C, Vec<u8>), String>,
    after: Serving<C>,
    outcome: Result<(Qid, Vec<u8>), RouterError>,
) where
    A: FnOnce(&PeerBundle) -> Result<(), String>,
    N: FnOnce(PeerBundle, u32) -> Result<(C, Vec<u8>), String>,

    requires
        now + 5_000_000_000 <= u64::MAX,
        before.spec_inbound().spec_routes().len() <= 64,
        forall|result: Result<(), String>| #[trigger]
            call_ensures(validate, (&bundle,), result) ==> result == valid,
        forall|result: Result<(C, Vec<u8>), String>| #[trigger]
            call_ensures(
                challenge,
                (bundle, before.spec_inbound().spec_next_handshake_id()),
                result,
            ) ==> result == made,
        before.challenged(admitted, bundle, now, validate, challenge, after, outcome),
    ensures
        !admitted ==> {
            &&& outcome == Err::<(Qid, Vec<u8>), RouterError>(RouterError::HandshakeOverloaded)
            &&& after.spec_inbound() == before.spec_inbound()
            &&& after.spec_challenge() == before.spec_challenge()
        },
        admitted && !(before.spec_inbound().spec_transition() is Ready) ==> outcome == Err::<
            (Qid, Vec<u8>),
            RouterError,
        >(RouterError::Io(Error::TransitionActive)),
        admitted && before.spec_inbound().spec_transition() is Ready && valid is Err ==> outcome
            == Err::<(Qid, Vec<u8>), RouterError>(RouterError::Io(Error::Rejected(valid->Err_0))),
        ({
            let room = before.spec_inbound().spec_routes().len() < 64
                || before.spec_inbound().spec_routes().contains(bundle.qid@);
            admitted && before.spec_inbound().spec_transition() is Ready && valid is Ok && room
                && before.spec_inbound().spec_next_handshake_id() < u32::MAX && made is Ok ==> {
                &&& outcome matches Ok((qid, request))
                &&& qid@ == bundle.qid@
                &&& request == (made->Ok_0).1
                &&& after.spec_challenge() == Some((now + 5_000_000_000) as u64)
                &&& after.spec_inbound().spec_transition() == RouteTransition::Challenging(
                    (made->Ok_0).0,
                    Ghost(bundle.qid@),
                )
            }
        }),
        outcome is Err ==> after.spec_challenge() == before.spec_challenge()
            && after.spec_inbound().spec_transition() == before.spec_inbound().spec_transition(),
        after.spec_inbound().spec_routes() == before.spec_inbound().spec_routes(),
        after.spec_connection() == before.spec_connection(),
{
}

/// Whatever an answer comes to, the challenge's time stops running; without a challenge it is
/// a breach of the protocol. What the check makes of it is reported as it is.
pub proof fn law_answers_stop_the_clock<C, V>(
    before: Serving<C>,
    challenge: C,
    record: &[u8],
    verify: V,
    result: Result<(Qid, Vec<u8>), String>,
    after: Serving<C>,
    outcome: Result<Vec<u8>, RouterError>,
) where V: FnOnce(C, &[u8]) -> Result<(Qid, Vec<u8>), String>
    requires
        before.well_formed(),
        before.spec_inbound().spec_transition() matches RouteTransition::Challenging(open, _)
            ==> open == challenge,
        forall|checked: Result<(Qid, Vec<u8>), String>| #[trigger]
            call_ensures(verify, (challenge, record), checked) ==> checked == result,
        before.verified(record, verify, after, outcome),
    ensures
        after.spec_challenge() is None,
        !(before.spec_inbound().spec_transition() is Challenging) ==> {
            &&& outcome == Err::<Vec<u8>, RouterError>(RouterError::Protocol)
            &&& after.spec_inbound() == before.spec_inbound()
        },
        before.spec_inbound().spec_transition() is Challenging ==> match result {
            Ok((qid, acceptance)) => {
                &&& outcome == Ok::<Vec<u8>, RouterError>(acceptance)
                &&& after.spec_inbound().spec_transition() == RouteTransition::<C>::Verified(qid)
            },
            Err(text) => {
                &&& outcome == Err::<Vec<u8>, RouterError>(RouterError::Io(Error::Rejected(text)))
                &&& after.spec_inbound().spec_transition() == RouteTransition::<C>::Ready
            },
        },
        after.spec_inbound().spec_routes() == before.spec_inbound().spec_routes(),
        after.spec_connection() == before.spec_connection(),
{
}

/// A proved identity whose acceptance is queued is always published: the table leads to this
/// connection for it, whichever one it led to before, and for all others where it led. With
/// no acceptance queued, or nothing proved, nothing changes.
pub proof fn law_proved_identity_is_published<C>(
    before: Serving<C>,
    table: Map<Seq<u8>, u64>,
    queued: bool,
    after: Serving<C>,
    table_after: Map<Seq<u8>, u64>,
    outcome: Result<Qid, RouterError>,
    other: Seq<u8>,
    serves: u64,
)
    requires
        before.published(table, queued, after, table_after, outcome),
    ensures
        !queued ==> outcome == Err::<Qid, RouterError>(RouterError::WriterStopped),
        queued && !(before.spec_inbound().spec_transition() is Verified) ==> outcome == Err::<
            Qid,
            RouterError,
        >(RouterError::Io(Error::NoVerifiedRoute)),
        outcome is Err ==> table_after == table && after.spec_inbound().spec_routes()
            == before.spec_inbound().spec_routes() && after.spec_inbound().spec_transition()
            == before.spec_inbound().spec_transition(),
        queued && before.spec_inbound().spec_transition() is Verified ==> {
            &&& outcome matches Ok(qid)
            &&& before.spec_inbound().spec_transition() matches RouteTransition::Verified(proved)
            &&& qid@ == proved@
            &&& table_after.contains_pair(proved@, before.spec_connection())
            &&& other != proved@ ==> (table_after.contains_pair(other, serves)
                <==> table.contains_pair(other, serves))
            &&& after.spec_inbound().spec_routes().contains(proved@)
        },
        after.spec_connection() == before.spec_connection(),
{
    if queued {
        if let RouteTransition::Verified(proved) = before.spec_inbound().spec_transition() {
            let routes = after.spec_inbound().spec_routes();
            let held = before.spec_inbound().spec_routes();
            if !held.contains(proved@) {
                assert(routes[held.len() as int] == proved@);
            }
        }
    }
}

/// While a challenge is open each read ends by its deadline; otherwise a read may wait, and a
/// frame that has begun has five seconds. Half of the processors, at least one and at most
/// four, work on handshakes.
pub proof fn law_reads_and_workers<C>(serving: Serving<C>, processors: usize)
    ensures
        serving.spec_challenge() matches Some(deadline) ==> serving.reads_within()
            == ReadLimit::Until(deadline),
        serving.spec_challenge() is None ==> serving.reads_within() == ReadLimit::Assembly(5),
        workers_for(None) == 1,
        1 <= workers_for(Some(processors)) <= 4,
        2 <= processors <= 8 ==> workers_for(Some(processors)) == processors / 2,
        processors > 8 ==> workers_for(Some(processors)) == 4,
{
}

/// Connections are numbered one after the other, and no number is used twice.
pub proof fn law_connections_are_numbered(connection: u64)
    ensures
        connection < u64::MAX ==> (following(connection) matches Some(next) && next == connection
            + 1),
        connection == u64::MAX ==> following(connection) is None,
{
}

} // verus!
