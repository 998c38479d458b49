//! The Foundation server: which session a record goes to, and when a new one is started.
use vstd::prelude::*;

use crate::protocol::record::{RecordHeader, RecordType};
use crate::qid::Qid;
use crate::relay::link::PeerStatus;
use crate::table::Table;
use crate::DEFAULT_ADDRESS;

verus! {

/// How many records may wait for a session, and for the router.
pub const QUEUE_SIZE: usize = 64;

/// The server's settings.
#[derive(Debug)]
pub struct Config {
    pub identity_path: String,
    pub bundle_path: String,
    pub router: RouterConfig,
}

/// What the server knows of the router.
#[derive(Debug)]
pub struct RouterConfig {
    pub bundle_path: String,
    pub address: String,
}

impl Default for Config {
    fn default() -> (config: Self)
        ensures
            config.identity_path@ == "foundation-server/identity.bin"@,
            config.bundle_path@ == "foundation-server/bundle.bin"@,
            config.router.bundle_path@ == "ql-router/bundle.bin"@,
            config.router.address@ == DEFAULT_ADDRESS@,
    {
        Config {
            identity_path: "foundation-server/identity.bin".to_owned(),
            bundle_path: "foundation-server/bundle.bin".to_owned(),
            router: RouterConfig {
                bundle_path: "ql-router/bundle.bin".to_owned(),
                address: DEFAULT_ADDRESS.to_owned(),
            },
        }
    }
}

/// What is to be done with a record.
#[derive(Debug)]
pub enum ServerStep {
    /// Drop it: it has no header, for the reason given.
    Invalid(String),
    /// Drop it: it is for somebody else, or it belongs to no session and opens none.
    Drop,
    /// Hand it to this session of its sender.
    Deliver { session: u64, sender: Qid, record: Vec<u8> },
    /// Start a session with its sender and hand it to that one.
    Start { sender: Qid, record: Vec<u8> },
}

/// What is to be done with a record, given what the codec makes of its header, and whether
/// what follows the header opens a handshake.
pub open spec fn step_of(
    sessions: Map<Seq<u8>, u64>,
    identity: Seq<u8>,
    record: Vec<u8>,
    decoded: Result<RecordHeader, String>,
    opens: bool,
) -> ServerStep {
    match decoded {
        Err(text) => ServerStep::Invalid(text),
        Ok(header) => if header.route.recipient@ != identity {
            ServerStep::Drop
        } else if sessions.contains_key(header.route.sender@) {
            ServerStep::Deliver {
                session: sessions[header.route.sender@],
                sender: header.route.sender,
                record,
            }
        } else if header.record_type == RecordType::Handshake && opens {
            ServerStep::Start { sender: header.route.sender, record }
        } else {
            ServerStep::Drop
        },
    }
}

/// What comes of a record: the codec reads its header, and where that leaves it open whether
/// a session is started, `opens` tells.
pub open spec fn handles<D, H>(
    sessions: Map<Seq<u8>, u64>,
    identity: Seq<u8>,
    record: Vec<u8>,
    decode: D,
    opens: H,
    step: ServerStep,
) -> bool where D: FnOnce(&[u8]) -> Result<RecordHeader, String>, H: FnOnce(&[u8]) -> bool {
    exists|bytes: &[u8], decoded: Result<RecordHeader, String>, opening: bool|
        {
            &&& bytes@ == record@
            &&& #[trigger] call_ensures(decode, (bytes,), decoded)
            &&& step == #[trigger] step_of(sessions, identity, record, decoded, opening)
            &&& (decoded matches Ok(header) && header.route.recipient@ == identity
                && !sessions.contains_key(header.route.sender@) && header.record_type
                == RecordType::Handshake) ==> call_ensures(opens, (bytes,), opening)
        }
}

/// The sessions after a record was handed to one: taken, or not.
pub open spec fn after_delivery(sessions: Map<Seq<u8>, u64>, sender: Seq<u8>, taken: bool) -> Map<
    Seq<u8>,
    u64,
> {
    if taken {
        sessions
    } else {
        sessions.remove(sender)
    }
}

/// The sessions after one of them came to stand so.
pub open spec fn after_status(
    sessions: Map<Seq<u8>, u64>,
    peer: Seq<u8>,
    status: PeerStatus,
) -> Map<Seq<u8>, u64> {
    if status == PeerStatus::Disconnected || status == PeerStatus::Unpaired {
        sessions.remove(peer)
    } else {
        sessions
    }
}

/// Tells what is to be done with a record. `decode` reads its header; `opens` tells whether
/// it is the opening record of a handshake.
pub fn handle_inbound<D, H>(
    sessions: &Table,
    identity: &Qid,
    record: Vec<u8>,
    decode: D,
    opens: H,
) -> (step: ServerStep) where
    D: FnOnce(&[u8]) -> Result<RecordHeader, String>,
    H: FnOnce(&[u8]) -> bool,

    requires
        forall|bytes: &[u8]| call_requires(decode, (bytes,)),
        forall|bytes: &[u8]| call_requires(opens, (bytes,)),
    ensures
        handles(sessions@, identity@, record, decode, opens, step),
        exists|bytes: &[u8], decoded: Result<RecordHeader, String>, opening: bool|
            {
                &&& bytes@ == record@
                &&& #[trigger] call_ensures(decode, (bytes,), decoded)
                &&& step == #[trigger] step_of(sessions@, identity@, record, decoded, opening)
                &&& step is Start ==> call_ensures(opens, (bytes,), opening)
                &&& step is Drop && (decoded matches Ok(header) && header.route.recipient@
                    == identity@ && header.record_type == RecordType::Handshake) ==> call_ensures(
                    opens,
                    (bytes,),
                    opening,
                )
            },
{
    let bytes = record.as_slice();
    let decoded = decode(bytes);
    let ghost seen = decoded;
    let ghost held = record;
    assert(call_ensures(decode, (bytes,), seen));
    let header = match decoded {
        Err(text) => {
            assert(step_of(sessions@, identity@, held, seen, false) == ServerStep::Invalid(text));
            return ServerStep::Invalid(text);
        },
        Ok(header) => header,
    };
    if header.route.recipient != *identity {
        assert(step_of(sessions@, identity@, held, seen, false) == ServerStep::Drop);
        return ServerStep::Drop;
    }
    match sessions.get(&header.route.sender) {
        Some(session) => {
            let step = ServerStep::Deliver { session, sender: header.route.sender, record };
            assert(step_of(sessions@, identity@, held, seen, false) == step);
            step
        },
        None => {
            if header.record_type != RecordType::Handshake {
                assert(step_of(sessions@, identity@, held, seen, false) == ServerStep::Drop);
                return ServerStep::Drop;
            }
            let opening = opens(bytes);
            let step = if opening {
                ServerStep::Start { sender: header.route.sender, record }
            } else {
                ServerStep::Drop
            };
            assert(step_of(sessions@, identity@, held, seen, opening) == step);
            step
        },
    }
}

/// Takes note that a session was started.
pub fn started(sessions: &mut Table, sender: Qid, session: u64)
    ensures
        final(sessions)@ == old(sessions)@.insert(sender@, session),
{
    sessions.insert(sender, session);
}

/// Takes note of how a record was handed to a session: one that no longer takes any is
/// forgotten.
pub fn delivered(sessions: &mut Table, sender: &Qid, taken: bool)
    ensures
        final(sessions)@ == after_delivery(old(sessions)@, sender@, taken),
        final(sessions)@ == if taken {
            old(sessions)@
        } else {
            old(sessions)@.remove(sender@)
        },
{
    if !taken {
        sessions.remove(sender);
    }
}

/// Takes note of how a session stands: one that ended is forgotten.
pub fn handle_peer_status(sessions: &mut Table, peer: &Qid, status: PeerStatus)
    ensures
        final(sessions)@ == after_status(old(sessions)@, peer@, status),
        final(sessions)@ == if status == PeerStatus::Disconnected || status
            == PeerStatus::Unpaired {
            old(sessions)@.remove(peer@)
        } else {
            old(sessions)@
        },
{
    match status {
        PeerStatus::Disconnected | PeerStatus::Unpaired => sessions.remove(peer),
        _ => {},
    }
}

/// Takes note that a session refused a record: it is forgotten.
pub fn handle_recv_error(sessions: &mut Table, peer: &Qid)
    ensures
        final(sessions)@ == old(sessions)@.remove(peer@),
{
    sessions.remove(peer);
}

/// A record is for the server only if it is addressed to it, and starts a session only with
/// a sender that has none; once started, the sender's records go to that session, and once
/// it is forgotten only a new opening starts another.
pub proof fn law_one_session_a_sender(
    sessions: Map<Seq<u8>, u64>,
    identity: Seq<u8>,
    record: Vec<u8>,
    header: RecordHeader,
    opens: bool,
    session: u64,
    later: Vec<u8>,
    later_opens: bool,
)
    requires
        step_of(sessions, identity, record, Ok(header), opens) is Start,
    ensures
        header.route.recipient@ == identity,
        !sessions.contains_key(header.route.sender@),
        ({
            let after = sessions.insert(header.route.sender@, session);
            step_of(after, identity, later, Ok(header), later_opens) == ServerStep::Deliver {
                session,
                sender: header.route.sender,
                record: later,
            }
        }),
        ({
            let forgotten = sessions.insert(header.route.sender@, session).remove(
                header.route.sender@,
            );
            step_of(forgotten, identity, later, Ok(header), false) is Drop
        }),
{
}

} // verus!
