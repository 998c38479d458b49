//! The relay's link to a Passport: what it is doing, whom it pairs with, and what becomes
//! of the records that come over Bluetooth.
use vstd::prelude::*;

use crate::external::hex_text;
use crate::protocol::record::{PeerBundle, RecordHeader};
use crate::protocol::wire::MAX_RECORD_SIZE;
use crate::qid::Qid;
use crate::text::{eq_ignore_ascii_case, same_ignoring_case};

verus! {

/// The Bluetooth service that a Passport offers.
pub const NUS_UUID: u128 = 0x6E400001_B5A3_F393_E0A9_E50E24DCCA9E;

/// The characteristic that records are written to.
pub const WRITE_UUID: u128 = 0x6E400002_B5A3_F393_E0A9_E50E24DCCA9E;

/// The characteristic that notifies of records.
pub const NOTIFY_UUID: u128 = 0x6E400003_B5A3_F393_E0A9_E50E24DCCA9E;

/// How many seconds the relay looks for a Passport.
pub const SEARCH_TIMEOUT: u64 = 30;

/// How many milliseconds lie between two looks.
pub const SEARCH_INTERVAL: u64 = 200;

/// How many seconds a sample of the rates takes.
pub const SAMPLE_INTERVAL: u64 = 1;

/// How far the relay is.
#[derive(Clone, Copy, Debug, PartialEq, Eq, Structural)]
pub enum Phase {
    Unpaired,
    Searching,
    Connecting,
    BluetoothConnected,
    SecureSession,
    SecureConnected,
    Provisioning,
    Ready,
    Failed,
}

/// How a session with a peer stands.
#[derive(Clone, Copy, Debug, PartialEq, Eq, Structural)]
pub enum PeerStatus {
    Disconnected,
    Unpaired,
    /// This side opens a session.
    Initiator,
    Connected,
}

/// The two ends of the link, as they are shown.
#[derive(Debug)]
pub struct Peer {
    pub name: String,
    pub passport_qid: String,
    pub desktop_qid: String,
}

/// What is shown of the relay.
#[derive(Debug)]
pub struct State {
    pub phase: Phase,
    pub peer: Option<Peer>,
    pub rx_bytes_per_second: u64,
    pub tx_bytes_per_second: u64,
}

impl Clone for Peer {
    fn clone(&self) -> (copy: Self)
        ensures
            copy == *self,
    {
        Peer {
            name: self.name.clone(),
            passport_qid: self.passport_qid.clone(),
            desktop_qid: self.desktop_qid.clone(),
        }
    }
}

impl Clone for State {
    fn clone(&self) -> (copy: Self)
        ensures
            copy == *self,
    {
        State {
            phase: self.phase,
            peer: match &self.peer {
                Some(peer) => Some(peer.clone()),
                None => None,
            },
            rx_bytes_per_second: self.rx_bytes_per_second,
            tx_bytes_per_second: self.tx_bytes_per_second,
        }
    }
}

/// The relay.
#[derive(Debug)]
pub struct Relay {
    /// The relay's own identity.
    pub qid: Qid,
    /// The address of the Passport that is linked over Bluetooth.
    pub linked: Option<String>,
    /// The bundle of the peer that was paired last.
    pub peer: Option<PeerBundle>,
    /// The identity that is being paired.
    pub pairing: Option<Qid>,
    /// How many bytes came since the rates were sampled.
    pub rx_since_sample: u64,
    /// How many bytes went since the rates were sampled.
    pub tx_since_sample: u64,
    /// What is shown.
    pub state: State,
}

/// An optional identity by what it holds.
pub open spec fn option_view(qid: Option<Qid>) -> Option<Seq<u8>> {
    match qid {
        Some(qid) => Some(qid@),
        None => None,
    }
}

fn same_option(a: &Option<Qid>, b: &Option<Qid>) -> (same: bool)
    ensures
        same == (option_view(*a) == option_view(*b)),
{
    match (a, b) {
        (Some(a), Some(b)) => *a == *b,
        (None, None) => true,
        _ => false,
    }
}

/// What the installation of the router's and the Foundation server's bundles came to.
#[derive(Clone, Copy, Debug, PartialEq, Eq, Structural)]
pub enum Provision {
    /// The bundles could not be read.
    Unreadable,
    /// The Passport could not be asked.
    RequestFailed,
    /// The Passport refused them.
    Rejected,
    /// They are installed, but the router's side of the relay is gone.
    NotAttached,
    /// They are installed, and the Passport is to be attached at the router.
    Attached,
}

/// What becomes of a record that came from the Passport.
#[derive(Debug)]
pub enum Inbound {
    /// It is larger than the router carries.
    TooLarge,
    /// It has no header.
    InvalidHeader,
    /// Its version is not the one in use.
    UnsupportedVersion(u8),
    /// It is for the relay itself.
    ToRuntime { header: RecordHeader, record: Vec<u8> },
    /// It is for somebody else.
    ToRouter { header: RecordHeader, record: Vec<u8> },
}

impl State {
    /// The same with other rates.
    pub open spec fn with_rates(self, rx: u64, tx: u64) -> State {
        State { rx_bytes_per_second: rx, tx_bytes_per_second: tx, ..self }
    }

    /// The same in another phase.
    pub open spec fn in_phase(self, phase: Phase) -> State {
        State { phase, ..self }
    }
}

impl Relay {
    /// The same with other words to show.
    pub open spec fn showing(self, state: State) -> Relay {
        Relay { state, ..self }
    }

    /// The same in another phase.
    pub open spec fn in_phase(self, phase: Phase) -> Relay {
        self.showing(self.state.in_phase(phase))
    }

    /// The same with nothing counted.
    pub open spec fn uncounted(self) -> Relay {
        Relay { rx_since_sample: 0, tx_since_sample: 0, ..self }
    }

    /// The same after the link failed: nothing is counted and no rate is shown.
    pub open spec fn broken(self) -> Relay {
        self.uncounted().showing(self.state.in_phase(Phase::Failed).with_rates(0, 0))
    }

    /// A relay that is not paired.
    pub fn new(qid: Qid) -> (relay: Self)
        ensures
            relay == (Relay {
                qid,
                linked: None,
                peer: None,
                pairing: None,
                rx_since_sample: 0,
                tx_since_sample: 0,
                state: State {
                    phase: Phase::Unpaired,
                    peer: None,
                    rx_bytes_per_second: 0,
                    tx_bytes_per_second: 0,
                },
            }),
    {
        Relay {
            qid,
            linked: None,
            peer: None,
            pairing: None,
            rx_since_sample: 0,
            tx_since_sample: 0,
            state: State {
                phase: Phase::Unpaired,
                peer: None,
                rx_bytes_per_second: 0,
                tx_bytes_per_second: 0,
            },
        }
    }

    /// Gives up the pairing that is under way. The runtime is told to forget its peer.
    pub fn unpair(&mut self)
        ensures
            *final(self) == (Relay { pairing: None, ..*old(self) }),
    {
        self.pairing = None;
    }

    /// The relay that knows its peer, and how the peer is shown.
    pub open spec fn knowing(self, bundle: PeerBundle, shown: Option<Peer>) -> Relay {
        Relay { peer: Some(bundle), ..self.showing(State { peer: shown, ..self.state }) }
    }

    /// Takes note of the peer that the runtime paired with.
    pub fn peer(&mut self, bundle: PeerBundle)
        ensures
            final(self).state.peer matches Some(peer) && peer.name == bundle.name
                && peer.passport_qid@ == hex_text(bundle.qid@) && peer.desktop_qid@ == hex_text(
                old(self).qid@,
            ),
            *final(self) == old(self).knowing(bundle, final(self).state.peer),
    {
        let display = Peer {
            name: bundle.name.clone(),
            passport_qid: bundle.qid.to_hex(),
            desktop_qid: self.qid.to_hex(),
        };
        self.peer = Some(bundle);
        self.state.peer = Some(display);
    }

    /// What the relay is after its session with a peer changed.
    pub open spec fn after_status(self, qid: Option<Seq<u8>>, status: PeerStatus) -> Relay {
        match status {
            PeerStatus::Unpaired => Relay {
                pairing: None,
                peer: None,
                state: State {
                    phase: Phase::Unpaired,
                    peer: None,
                    rx_bytes_per_second: 0,
                    tx_bytes_per_second: 0,
                },
                ..self.uncounted()
            },
            PeerStatus::Disconnected => self.showing(
                self.state.in_phase(Phase::Failed).with_rates(0, 0),
            ),
            PeerStatus::Initiator => self.in_phase(Phase::SecureSession),
            PeerStatus::Connected => if qid != option_view(self.pairing) {
                self
            } else {
                Relay { pairing: None, ..self.in_phase(Phase::SecureConnected) }
            },
        }
    }

    /// Whether a pairing came to its end with this change of the session.
    pub open spec fn is_paired_by(self, qid: Option<Seq<u8>>, status: PeerStatus) -> bool {
        status == PeerStatus::Connected && qid == option_view(self.pairing)
    }

    /// Takes note that the session with a peer changed, and tells whether a pairing came to
    /// its end with that, so that the Passport is to be provisioned.
    pub fn status(&mut self, qid: Option<Qid>, status: PeerStatus) -> (paired: bool)
        ensures
            *final(self) == old(self).after_status(option_view(qid), status),
            paired == old(self).is_paired_by(option_view(qid), status),
    {
        match status {
            PeerStatus::Unpaired => {
                self.pairing = None;
                self.peer = None;
                self.rx_since_sample = 0;
                self.tx_since_sample = 0;
                self.state = State {
                    phase: Phase::Unpaired,
                    peer: None,
                    rx_bytes_per_second: 0,
                    tx_bytes_per_second: 0,
                };
                false
            },
            PeerStatus::Disconnected => {
                self.state.phase = Phase::Failed;
                self.state.rx_bytes_per_second = 0;
                self.state.tx_bytes_per_second = 0;
                false
            },
            PeerStatus::Initiator => {
                self.state.phase = Phase::SecureSession;
                false
            },
            PeerStatus::Connected => {
                if !same_option(&qid, &self.pairing) {
                    return false;
                }
                self.state.phase = Phase::SecureConnected;
                self.pairing = None;
                true
            },
        }
    }

    /// The relay once it provisions its peer, if it knows one.
    pub open spec fn provisioning(self) -> Relay {
        self.in_phase(
            if self.peer is Some {
                Phase::Provisioning
            } else {
                Phase::Failed
            },
        )
    }

    /// Begins to provision the Passport that was paired, whose bundle is given, unless the
    /// runtime never told it.
    pub fn provision(&mut self) -> (bundle: Option<PeerBundle>)
        ensures
            bundle is Some <==> old(self).peer is Some,
            bundle matches Some(bundle) ==> bundle.same_as(old(self).peer->0),
            *final(self) == old(self).provisioning(),
    {
        match &self.peer {
            None => {
                self.state.phase = Phase::Failed;
                None
            },
            Some(peer) => {
                let peer = peer.clone();
                self.state.phase = Phase::Provisioning;
                Some(peer)
            },
        }
    }

    /// Takes note of what the provisioning of the Passport came to.
    pub fn provisioned(&mut self, outcome: Provision)
        ensures
            *final(self) == old(self).in_phase(
                if outcome == Provision::Attached {
                    Phase::Ready
                } else {
                    Phase::Failed
                },
            ),
    {
        self.state.phase = match outcome {
            Provision::Attached => Phase::Ready,
            _ => Phase::Failed,
        };
    }

    /// The same with more bytes counted that came and that went.
    pub open spec fn counting(self, rx: int, tx: int) -> Relay {
        Relay {
            rx_since_sample: (self.rx_since_sample + rx) as u64,
            tx_since_sample: (self.tx_since_sample + tx) as u64,
            ..self
        }
    }

    /// Takes note that a piece of a record was written to the Passport.
    pub fn sent(&mut self, bytes: usize)
        requires
            old(self).tx_since_sample + bytes <= u64::MAX,
        ensures
            *final(self) == old(self).counting(0, bytes as int),
            *final(self) == (Relay {
                tx_since_sample: (old(self).tx_since_sample + bytes) as u64,
                ..*old(self)
            }),
    {
        self.tx_since_sample = self.tx_since_sample + bytes as u64;
    }

    /// Ends the write of a record: `complete` tells whether all of its pieces were written.
    /// A write that failed ends the link, and the session is closed. The first result
    /// answers the one who asked for the write; the second tells to close the session.
    pub fn written(&mut self, complete: bool) -> (outcome: (bool, bool))
        ensures
            outcome.0 == (old(self).linked is Some && complete),
            outcome.1 == (old(self).linked is Some && !complete),
            *final(self) == if outcome.1 {
                (Relay { linked: None, ..old(self).broken() })
            } else {
                *old(self)
            },
    {
        let connected = self.linked.is_some();
        let success = connected && complete;
        let close = connected && !success;
        if close {
            self.linked = None;
            self.fail();
        }
        (success, close)
    }

    fn fail(&mut self)
        ensures
            *final(self) == old(self).broken(),
    {
        self.rx_since_sample = 0;
        self.tx_since_sample = 0;
        self.state.phase = Phase::Failed;
        self.state.rx_bytes_per_second = 0;
        self.state.tx_bytes_per_second = 0;
    }

    /// Whether the link to this address is there already.
    pub open spec fn reusable(self, address: Seq<char>, connected: bool) -> bool {
        &&& self.linked matches Some(linked)
        &&& same_ignoring_case(linked@, address)
        &&& connected
    }

    /// The relay while it searches for a Passport, with the link that it had or without.
    pub open spec fn searching(self, reuse: bool) -> Relay {
        Relay {
            linked: if reuse {
                self.linked
            } else {
                None
            },
            state: State {
                phase: Phase::Searching,
                peer: None,
                rx_bytes_per_second: 0,
                tx_bytes_per_second: 0,
            },
            ..self
        }
    }

    /// The relay with a Passport that is linked, newly at the address that is given or still,
    /// and is being paired.
    pub open spec fn pairing_with(self, address: Option<String>, qid: Qid) -> Relay {
        Relay {
            linked: if address is Some {
                address
            } else {
                self.linked
            },
            pairing: Some(qid),
            ..self.uncounted().in_phase(Phase::BluetoothConnected)
        }
    }

    /// Begins to pair with the Passport at this address. `connected` tells whether the device
    /// that is linked, if any, is still connected. Where the link cannot be used again it is
    /// given up, and the Passport has to be searched for.
    pub fn pair(&mut self, address: &str, connected: bool) -> (reuse: bool)
        ensures
            reuse == old(self).reusable(address@, connected),
            *final(self) == old(self).searching(reuse),
    {
        self.state = State {
            phase: Phase::Searching,
            peer: None,
            rx_bytes_per_second: 0,
            tx_bytes_per_second: 0,
        };
        let reuse = match &self.linked {
            Some(linked) => eq_ignore_ascii_case(linked.as_str(), address) && connected,
            None => false,
        };
        if !reuse {
            self.linked = None;
        }
        reuse
    }

    /// Takes note that the Passport was found.
    pub fn found(&mut self)
        ensures
            *final(self) == old(self).in_phase(Phase::Connecting),
    {
        self.state.phase = Phase::Connecting;
    }

    /// Takes note that the Passport could not be found or linked.
    pub fn unlinked(&mut self)
        ensures
            *final(self) == old(self).in_phase(Phase::Failed),
    {
        self.state.phase = Phase::Failed;
    }

    /// Takes note that the Passport is linked, newly at the address that is given or still at
    /// the one that it was linked at, and pairs with the identity that its invitation names.
    pub fn link(&mut self, address: Option<String>, qid: Qid)
        ensures
            *final(self) == old(self).pairing_with(address, qid),
    {
        if address.is_some() {
            self.linked = address;
        }
        self.rx_since_sample = 0;
        self.tx_since_sample = 0;
        self.state.phase = Phase::BluetoothConnected;
        self.pairing = Some(qid);
    }

    /// Takes note that the Passport went away. The session is closed.
    pub fn disconnected(&mut self)
        ensures
            *final(self) == (Relay { linked: None, pairing: None, ..old(self).broken() }),
    {
        self.linked = None;
        self.pairing = None;
        self.fail();
    }

    /// Takes note that the Passport notified of some bytes.
    pub fn received(&mut self, bytes: usize)
        requires
            old(self).rx_since_sample + bytes <= u64::MAX,
        ensures
            *final(self) == old(self).counting(bytes as int, 0),
            *final(self) == (Relay {
                rx_since_sample: (old(self).rx_since_sample + bytes) as u64,
                ..*old(self)
            }),
    {
        self.rx_since_sample = self.rx_since_sample + bytes as u64;
    }

    /// What becomes of a record, given what the codec makes of its header: the first thing
    /// that is wrong with it, or the one it is handed to.
    pub open spec fn inbound_of(
        self,
        record: Vec<u8>,
        wire_version: u8,
        decoded: Result<RecordHeader, String>,
    ) -> Inbound {
        match decoded {
            Err(_) => Inbound::InvalidHeader,
            Ok(header) => if header.version != wire_version {
                Inbound::UnsupportedVersion(header.version)
            } else if header.route.recipient@ == self.qid@ {
                Inbound::ToRuntime { header, record }
            } else {
                Inbound::ToRouter { header, record }
            },
        }
    }

    /// What becomes of a record that came from the Passport, whose header `decode` reads.
    pub open spec fn takes<D>(
        self,
        record: Vec<u8>,
        wire_version: u8,
        decode: D,
        inbound: Inbound,
    ) -> bool where D: FnOnce(&[u8]) -> Result<RecordHeader, String> {
        if record@.len() > MAX_RECORD_SIZE {
            inbound == Inbound::TooLarge
        } else {
            exists|bytes: &[u8], decoded: Result<RecordHeader, String>|
                {
                    &&& bytes@ == record@
                    &&& #[trigger] call_ensures(decode, (bytes,), decoded)
                    &&& inbound == self.inbound_of(record, wire_version, decoded)
                }
        }
    }

    /// Tells what becomes of a record that came from the Passport. `decode` reads its header.
    pub fn record<D>(
        &self,
        record: Vec<u8>,
        wire_version: u8,
        decode: D,
    ) -> (inbound: Inbound) where D: FnOnce(&[u8]) -> Result<RecordHeader, String>
        requires
            forall|bytes: &[u8]| call_requires(decode, (bytes,)),
        ensures
            self.takes(record, wire_version, decode, inbound),
            record@.len() > MAX_RECORD_SIZE ==> inbound == Inbound::TooLarge,
            record@.len() <= MAX_RECORD_SIZE ==> exists|
                bytes: &[u8],
                decoded: Result<RecordHeader, String>,
            |
                {
                    &&& bytes@ == record@
                    &&& #[trigger] call_ensures(decode, (bytes,), decoded)
                    &&& inbound == self.inbound_of(record, wire_version, decoded)
                },
    {
        if record.len() > MAX_RECORD_SIZE {
            return Inbound::TooLarge;
        }
        let bytes = record.as_slice();
        let decoded = decode(bytes);
        let ghost seen = decoded;
        assert(call_ensures(decode, (bytes,), seen));
        match decoded {
            Err(_) => Inbound::InvalidHeader,
            Ok(header) => if header.version != wire_version {
                Inbound::UnsupportedVersion(header.version)
            } else if header.route.recipient == self.qid {
                Inbound::ToRuntime { header, record }
            } else {
                Inbound::ToRouter { header, record }
            },
        }
    }

    /// Ends a sample, given the rates that the counts come to, and tells whether they are news.
    pub fn sample(&mut self, rx: u64, tx: u64) -> (changed: bool)
        ensures
            *final(self) == old(self).uncounted().showing(old(self).state.with_rates(rx, tx)),
            changed == (old(self).state.rx_bytes_per_second != rx || old(
                self,
            ).state.tx_bytes_per_second != tx),
    {
        self.rx_since_sample = 0;
        self.tx_since_sample = 0;
        if self.state.rx_bytes_per_second == rx && self.state.tx_bytes_per_second == tx {
            false
        } else {
            self.state.rx_bytes_per_second = rx;
            self.state.tx_bytes_per_second = tx;
            true
        }
    }
}

/// Whether a Bluetooth address is the one that is searched for.
pub fn same_address(found: &str, wanted: &str) -> (same: bool)
    ensures
        same == same_ignoring_case(found@, wanted@),
{
    eq_ignore_ascii_case(found, wanted)
}

/// The characteristic that a Passport lacks.
#[derive(Clone, Copy, Debug, PartialEq, Eq, Structural)]
pub enum Missing {
    Write,
    Notify,
}

impl Missing {
    /// The words that each lack is reported with.
    pub open spec fn spec_message(self) -> Seq<char> {
        match self {
            Missing::Write => "Passport write characteristic unavailable"@,
            Missing::Notify => "Passport notification characteristic unavailable"@,
        }
    }

    /// The words that the lack is reported with.
    pub fn message(&self) -> (message: String)
        ensures
            message@ == self.spec_message(),
    {
        match self {
            Missing::Write => "Passport write characteristic unavailable".to_owned(),
            Missing::Notify => "Passport notification characteristic unavailable".to_owned(),
        }
    }
}

fn first_at(uuids: &Vec<u128>, uuid: u128) -> (at: Option<usize>)
    ensures
        at is Some <==> uuids@.contains(uuid),
        at matches Some(at) ==> at < uuids@.len() && uuids@[at as int] == uuid && forall|i: int|
            0 <= i < at ==> uuids@[i] != uuid,
{
    let mut i: usize = 0;
    while i < uuids.len()
        invariant
            i <= uuids.len(),
            forall|j: int| 0 <= j < i ==> uuids@[j] != uuid,
        decreases uuids.len() - i,
    {
        if uuids[i] == uuid {
            return Some(i);
        }
        i += 1;
    }
    None
}

/// Where the two characteristics stand among those that a device offers: each at its first
/// place.
pub open spec fn finds(uuids: Seq<u128>, outcome: Result<(usize, usize), Missing>) -> bool {
    if !uuids.contains(WRITE_UUID) {
        outcome == Err::<(usize, usize), Missing>(Missing::Write)
    } else if !uuids.contains(NOTIFY_UUID) {
        outcome == Err::<(usize, usize), Missing>(Missing::Notify)
    } else {
        &&& outcome matches Ok((write, notify))
        &&& write < uuids.len() && uuids[write as int] == WRITE_UUID
        &&& notify < uuids.len() && uuids[notify as int] == NOTIFY_UUID
        &&& forall|i: int| 0 <= i < write ==> uuids[i] != WRITE_UUID
        &&& forall|i: int| 0 <= i < notify ==> uuids[i] != NOTIFY_UUID
    }
}

/// Where the characteristics for writing and for notifications stand among those that a
/// device offers.
pub fn characteristics(uuids: &Vec<u128>) -> (outcome: Result<(usize, usize), Missing>)
    ensures
        finds(uuids@, outcome),
        !uuids@.contains(WRITE_UUID) ==> outcome == Err::<(usize, usize), Missing>(Missing::Write),
        uuids@.contains(WRITE_UUID) && !uuids@.contains(NOTIFY_UUID) ==> outcome == Err::<
            (usize, usize),
            Missing,
        >(Missing::Notify),
        uuids@.contains(WRITE_UUID) && uuids@.contains(NOTIFY_UUID) ==> {
            &&& outcome matches Ok((write, notify))
            &&& write < uuids@.len() && uuids@[write as int] == WRITE_UUID
            &&& notify < uuids@.len() && uuids@[notify as int] == NOTIFY_UUID
            &&& forall|i: int| 0 <= i < write ==> uuids@[i] != WRITE_UUID
            &&& forall|i: int| 0 <= i < notify ==> uuids@[i] != NOTIFY_UUID
        },
{
    let write: usize = match first_at(uuids, WRITE_UUID) {
        Some(at) => at,
        None => return Err(Missing::Write),
    };
    let notify: usize = match first_at(uuids, NOTIFY_UUID) {
        Some(at) => at,
        None => return Err(Missing::Notify),
    };
    Ok((write, notify))
}

/// A pairing whose every step succeeds goes through all phases in their order and ends ready,
/// whatever the relay did before: the Passport that answers under the identity that its
/// invitation named is the one that is shown and provisioned.
pub proof fn law_pairing_ends_ready(
    relay: Relay,
    reuse: bool,
    address: Option<String>,
    qid: Qid,
    bundle: PeerBundle,
    shown: Peer,
)
    ensures
        ({
            let searching = relay.searching(reuse);
            let found = searching.in_phase(Phase::Connecting);
            let linked = found.pairing_with(address, qid);
            let opening = linked.after_status(None, PeerStatus::Initiator);
            let known = opening.knowing(bundle, Some(shown));
            let connected = known.after_status(Some(qid@), PeerStatus::Connected);
            let provisioning = connected.provisioning();
            let ready = provisioning.in_phase(Phase::Ready);
            &&& searching.state.phase == Phase::Searching
            &&& found.state.phase == Phase::Connecting
            &&& linked.state.phase == Phase::BluetoothConnected
            &&& opening.state.phase == Phase::SecureSession
            &&& known.is_paired_by(Some(qid@), PeerStatus::Connected)
            &&& connected.state.phase == Phase::SecureConnected
            &&& provisioning.state.phase == Phase::Provisioning
            &&& provisioning.peer == Some(bundle)
            &&& ready.state.phase == Phase::Ready
            &&& ready.state.peer == Some(shown)
            &&& ready.pairing is None
        }),
{
}

/// A session that names its peer ends a pairing only if that peer is being paired, and only
/// once: until a new pairing begins, no session with a named peer ends one.
pub proof fn law_pairing_ends_once(
    relay: Relay,
    qid: Seq<u8>,
    later: Seq<u8>,
    between: PeerStatus,
    other: Option<Seq<u8>>,
)
    requires
        relay.is_paired_by(Some(qid), PeerStatus::Connected),
    ensures
        option_view(relay.pairing) == Some(qid),
        ({
            let once = relay.after_status(Some(qid), PeerStatus::Connected);
            let afterwards = once.after_status(other, between);
            &&& !once.is_paired_by(Some(later), PeerStatus::Connected)
            &&& !afterwards.is_paired_by(Some(later), PeerStatus::Connected)
        }),
{
}

/// Once the peer is unpaired nothing of it is left: no bundle, no pairing, no name, no
/// rates.
pub proof fn law_unpaired_is_forgotten(relay: Relay, qid: Option<Seq<u8>>)
    ensures
        ({
            let after = relay.after_status(qid, PeerStatus::Unpaired);
            &&& after.peer is None
            &&& after.pairing is None
            &&& after.state.peer is None
            &&& after.state.phase == Phase::Unpaired
            &&& after.rx_since_sample == 0 && after.tx_since_sample == 0
            &&& after.state.rx_bytes_per_second == 0 && after.state.tx_bytes_per_second == 0
            &&& after.linked == relay.linked
        }),
{
}

} // verus!
