//! What is promised of the Foundation server.
use vstd::prelude::*;

use crate::protocol::record::{RecordHeader, RecordType};
use crate::relay::link::PeerStatus;
use crate::server::{after_delivery, after_status, handles, step_of, ServerStep, QUEUE_SIZE};

verus! {

/// Every record of a sender that has a session goes to that session, as it came, if it is
/// addressed to the server: whatever its type and version, its content and its length are.
pub proof fn law_session_gets_every_record(
    sessions: Map<Seq<u8>, u64>,
    identity: Seq<u8>,
    record: Vec<u8>,
    header: RecordHeader,
    opens: bool,
    session: u64,
)
    requires
        header.route.recipient@ == identity,
        sessions.contains_pair(header.route.sender@, session),
    ensures
        step_of(sessions, identity, record, Ok(header), opens) == (ServerStep::Deliver {
            session,
            sender: header.route.sender,
            record,
        }),
{
}

/// A session is started exactly by the opening record of a handshake that is addressed to the
/// server and whose sender has none; it gets that record as it came.
pub proof fn law_session_starts_with_an_opening(
    sessions: Map<Seq<u8>, u64>,
    identity: Seq<u8>,
    record: Vec<u8>,
    header: RecordHeader,
    opens: bool,
)
    requires
        !sessions.contains_key(header.route.sender@),
    ensures
        ({
            let step = step_of(sessions, identity, record, Ok(header), opens);
            if header.route.recipient@ == identity && header.record_type == RecordType::Handshake
                && opens {
                step == (ServerStep::Start { sender: header.route.sender, record })
            } else {
                step is Drop
            }
        }),
{
}

/// A record for somebody else is dropped whoever sent it, and one without a header is refused
/// with the codec's own words: neither depends on the sessions.
pub proof fn law_other_records_are_dropped(
    sessions: Map<Seq<u8>, u64>,
    identity: Seq<u8>,
    record: Vec<u8>,
    header: RecordHeader,
    text: String,
    opens: bool,
)
    requires
        header.route.recipient@ != identity,
    ensures
        step_of(sessions, identity, record, Ok(header), opens) is Drop,
        step_of(sessions, identity, record, Err(text), opens) == ServerStep::Invalid(text),
{
}

/// What the server does with a record that comes to it: to a session of its sender it goes
/// whatever it is; without one a session is started exactly by an opening handshake record.
pub proof fn law_records_find_their_session<D, H>(
    sessions: Map<Seq<u8>, u64>,
    identity: Seq<u8>,
    record: Vec<u8>,
    decode: D,
    header: RecordHeader,
    opens: H,
    opening: bool,
    step: ServerStep,
) where D: FnOnce(&[u8]) -> Result<RecordHeader, String>, H: FnOnce(&[u8]) -> bool
    requires
        forall|bytes: &[u8], decoded: Result<RecordHeader, String>|
            bytes@ == record@ && #[trigger] call_ensures(decode, (bytes,), decoded) ==> decoded
                == Ok::<RecordHeader, String>(header),
        forall|bytes: &[u8], told: bool|
            bytes@ == record@ && #[trigger] call_ensures(opens, (bytes,), told) ==> told == opening,
        handles(sessions, identity, record, decode, opens, step),
    ensures
        header.route.recipient@ != identity ==> step is Drop,
        forall|session: u64|
            header.route.recipient@ == identity && sessions.contains_pair(
                header.route.sender@,
                session,
            ) ==> step == (ServerStep::Deliver { session, sender: header.route.sender, record }),
        header.route.recipient@ == identity && !sessions.contains_key(header.route.sender@) ==> (if (
        header.record_type is Handshake && opening) {
            step == (ServerStep::Start { sender: header.route.sender, record })
        } else {
            step is Drop
        }),
{
    let (bytes, decoded, told) = choose|
        bytes: &[u8],
        decoded: Result<RecordHeader, String>,
        told: bool,
    |
        {
            &&& bytes@ == record@
            &&& #[trigger] call_ensures(decode, (bytes,), decoded)
            &&& step == #[trigger] step_of(sessions, identity, record, decoded, told)
            &&& (decoded matches Ok(header) && header.route.recipient@ == identity
                && !sessions.contains_key(header.route.sender@) && header.record_type
                == RecordType::Handshake) ==> call_ensures(opens, (bytes,), told)
        };
    assert(decoded == Ok::<RecordHeader, String>(header));
}

/// A session is forgotten exactly when it takes no more records or its peer is gone, and the
/// sessions of all others go on; while it stands, or is being opened, it stays.
pub proof fn law_sessions_are_forgotten_one_by_one(
    sessions: Map<Seq<u8>, u64>,
    peer: Seq<u8>,
    status: PeerStatus,
    taken: bool,
    other: Seq<u8>,
    session: u64,
)
    ensures
        taken ==> after_delivery(sessions, peer, taken) == sessions,
        !taken ==> !after_delivery(sessions, peer, taken).contains_key(peer),
        status is Connected || status is Initiator ==> after_status(sessions, peer, status)
            == sessions,
        status is Disconnected || status is Unpaired ==> !after_status(
            sessions,
            peer,
            status,
        ).contains_key(peer),
        other != peer ==> {
            &&& after_delivery(sessions, peer, taken).contains_pair(other, session)
                <==> sessions.contains_pair(other, session)
            &&& after_status(sessions, peer, status).contains_pair(other, session)
                <==> sessions.contains_pair(other, session)
        },
        QUEUE_SIZE == 64,
{
}

} // verus!
