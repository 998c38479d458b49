//! What is promised of the relay: where a Passport's records go, when a link is used again,
//! what each event does, and what a pairing link leads to.
use vstd::prelude::*;

use crate::external::{hex_bytes, hex_text, is_hex};
use crate::protocol::record::{PeerBundle, RecordHeader};
use crate::qid::Qid;
use crate::relay::link::{
    finds, Inbound, Missing, PeerStatus, Phase, Provision, Relay, NUS_UUID, SAMPLE_INTERVAL,
    SEARCH_INTERVAL, SEARCH_TIMEOUT,
};
use crate::relay::steps::{Action, Event};
use crate::relay::target::{first_value_of, link_parts, targets, Invite, Target};
use crate::relay::uplink::{
    uplink_step_of, RouterMessage, UplinkEvent, UplinkStep, RECONNECT_DELAY,
};
use crate::text::same_ignoring_case;

verus! {

/// A record of the Passport goes by its recipient alone: to the relay's runtime exactly if it
/// is addressed to the relay, and to the router exactly if it is not, with its header and as
/// it came, whatever its type, sender and content are, up to the largest record that there
/// may be.
pub proof fn law_records_go_by_their_recipient<D>(
    relay: Relay,
    record: Vec<u8>,
    wire_version: u8,
    decode: D,
    header: RecordHeader,
    inbound: Inbound,
) where D: FnOnce(&[u8]) -> Result<RecordHeader, String>
    requires
        forall|bytes: &[u8], decoded: Result<RecordHeader, String>|
            bytes@ == record@ && #[trigger] call_ensures(decode, (bytes,), decoded) ==> decoded
                == Ok::<RecordHeader, String>(header),
        header.version == wire_version,
        record@.len() <= 8192,
        relay.takes(record, wire_version, decode, inbound),
    ensures
        header.route.recipient@ == relay.qid@ <==> inbound is ToRuntime,
        header.route.recipient@ != relay.qid@ <==> inbound is ToRouter,
        inbound == (Inbound::ToRuntime { header, record }) || inbound == (Inbound::ToRouter {
            header,
            record,
        }),
{
}

/// A record that is no good goes nowhere: one of more than 8192 bytes is too large before its
/// header is looked at, then one without a header has an invalid one, then one of another
/// version has an unsupported one.
pub proof fn law_bad_records_go_nowhere<D>(
    relay: Relay,
    record: Vec<u8>,
    wire_version: u8,
    decode: D,
    header: Result<RecordHeader, String>,
    inbound: Inbound,
) where D: FnOnce(&[u8]) -> Result<RecordHeader, String>
    requires
        forall|bytes: &[u8], decoded: Result<RecordHeader, String>|
            bytes@ == record@ && #[trigger] call_ensures(decode, (bytes,), decoded) ==> decoded
                == header,
        relay.takes(record, wire_version, decode, inbound),
    ensures
        record@.len() > 8192 <==> inbound is TooLarge,
        record@.len() <= 8192 && header is Err <==> inbound is InvalidHeader,
        record@.len() <= 8192 && (header matches Ok(read) && read.version != wire_version) <==> (
        inbound is UnsupportedVersion),
        inbound matches Inbound::UnsupportedVersion(version) ==> header matches Ok(read)
            && read.version == version,
{
}

/// Whether two characters are the same but for the case of a Latin letter.
pub open spec fn same_letter(a: char, b: char) -> bool {
    ||| a == b
    ||| 65 <= a as int <= 90 && b as int == a as int + 32
    ||| 65 <= b as int <= 90 && a as int == b as int + 32
}

/// Two texts are the same but for case exactly if they are of one length and agree so in
/// every character.
pub proof fn law_case_is_all_that_is_ignored(a: Seq<char>, b: Seq<char>)
    ensures
        same_ignoring_case(a, b) <==> a.len() == b.len() && forall|i: int|
            0 <= i < a.len() ==> same_letter(#[trigger] a[i], b[i]),
        same_ignoring_case(a, a),
        same_ignoring_case(a, b) == same_ignoring_case(b, a),
{
    assert forall|x: char, y: char| #[trigger] same_letter(x, y) <==> crate::text::ascii_lower(x)
        == crate::text::ascii_lower(y) by {}
    if same_ignoring_case(a, b) {
        assert forall|i: int| 0 <= i < a.len() implies same_letter(#[trigger] a[i], b[i]) by {
            assert(same_letter(a[i], b[i]) <==> crate::text::ascii_lower(a[i])
                == crate::text::ascii_lower(b[i]));
        }
        assert forall|i: int| 0 <= i < b.len() implies crate::text::ascii_lower(#[trigger] b[i])
            == crate::text::ascii_lower(a[i]) by {
            assert(crate::text::ascii_lower(a[i]) == crate::text::ascii_lower(b[i]));
        }
    }
    if same_ignoring_case(b, a) {
        assert forall|i: int| 0 <= i < a.len() implies crate::text::ascii_lower(#[trigger] a[i])
            == crate::text::ascii_lower(b[i]) by {
            assert(crate::text::ascii_lower(b[i]) == crate::text::ascii_lower(a[i]));
        }
    }
    if a.len() == b.len() && forall|i: int|
        0 <= i < a.len() ==> same_letter(#[trigger] a[i], b[i]) {
        assert forall|i: int| 0 <= i < a.len() implies crate::text::ascii_lower(#[trigger] a[i])
            == crate::text::ascii_lower(b[i]) by {
            assert(same_letter(a[i], b[i]));
        }
    }
}

/// A link is used again exactly if a device is linked and still connected, and its address is
/// the one that is asked for, letter case aside: then the link stays. A pairing with any other
/// address gives the link up and searches. Either way the relay shows that it searches, for
/// nobody yet and at no rate, and keeps all else.
pub proof fn law_link_is_used_again_for_its_address_only(
    relay: Relay,
    target: Target,
    connected: bool,
    after: Relay,
    action: Action,
)
    requires
        relay.steps(Event::Pair { target, connected }, after, action),
    ensures
        ({
            let same = relay.linked matches Some(linked) && linked@.len() == target.address@.len()
                && forall|i: int|
                0 <= i < linked@.len() ==> same_letter(#[trigger] linked@[i], target.address@[i]);
            if same && connected {
                &&& relay.reusable(target.address@, connected)
                &&& action == Action::Reuse(target)
                &&& after.linked == relay.linked
            } else {
                &&& !relay.reusable(target.address@, connected)
                &&& action == Action::Search(target)
                &&& after.linked is None
            }
        }),
        after.state.phase == Phase::Searching,
        after.state.peer is None,
        after.state.rx_bytes_per_second == 0,
        after.state.tx_bytes_per_second == 0,
        after.qid == relay.qid,
        after.peer == relay.peer,
        after.pairing == relay.pairing,
        after.rx_since_sample == relay.rx_since_sample,
        after.tx_since_sample == relay.tx_since_sample,
        relay.searching(true).linked == relay.linked,
        relay.searching(false).linked is None,
{
    if let Some(linked) = relay.linked {
        law_case_is_all_that_is_ignored(linked@, target.address@);
    }
}

/// Whether an event leaves alone what only other events change: the relay's own identity, its
/// link, its peer, its pairing and its counts.
pub open spec fn keeps(
    before: Relay,
    after: Relay,
    linked: bool,
    peer: bool,
    pairing: bool,
    counts: bool,
) -> bool {
    &&& after.qid == before.qid
    &&& linked ==> after.linked == before.linked
    &&& peer ==> after.peer == before.peer
    &&& pairing ==> after.pairing == before.pairing
    &&& counts ==> after.rx_since_sample == before.rx_since_sample && after.tx_since_sample
        == before.tx_since_sample
}

/// A pairing is over, and the Passport provisioned, exactly when the session with the identity
/// that is being paired comes to stand, in whatever phase the relay is; a session with any
/// other changes nothing at all.
pub proof fn law_session_of_the_paired_ends_the_pairing(
    relay: Relay,
    qid: Option<Qid>,
    after: Relay,
    action: Action,
)
    requires
        relay.steps(Event::Status(qid, PeerStatus::Connected), after, action),
    ensures
        ({
            let same = match (qid, relay.pairing) {
                (Some(peer), Some(paired)) => peer@ == paired@,
                (None, None) => true,
                _ => false,
            };
            if same {
                &&& action == Action::Paired
                &&& after.pairing is None
                &&& after.state.phase == Phase::SecureConnected
                &&& after.state.peer == relay.state.peer
                &&& after.state.rx_bytes_per_second == relay.state.rx_bytes_per_second
                &&& after.state.tx_bytes_per_second == relay.state.tx_bytes_per_second
                &&& keeps(relay, after, true, true, false, true)
            } else {
                &&& action == Action::Show
                &&& after == relay
            }
        }),
{
}

/// A session that opens is shown; one that ends is shown as a failure without rates; and when
/// the peer unpairs, the peer, its name, the pairing and all counts and rates are gone, but
/// not the link.
pub proof fn law_session_changes_are_shown(
    relay: Relay,
    qid: Option<Qid>,
    status: PeerStatus,
    after: Relay,
    action: Action,
)
    requires
        relay.steps(Event::Status(qid, status), after, action),
        status != PeerStatus::Connected,
    ensures
        action == Action::Show,
        status == PeerStatus::Initiator ==> {
            &&& after.state.phase == Phase::SecureSession
            &&& after.state.peer == relay.state.peer
            &&& after.state.rx_bytes_per_second == relay.state.rx_bytes_per_second
            &&& after.state.tx_bytes_per_second == relay.state.tx_bytes_per_second
            &&& keeps(relay, after, true, true, true, true)
        },
        status == PeerStatus::Disconnected ==> {
            &&& after.state.phase == Phase::Failed
            &&& after.state.peer == relay.state.peer
            &&& after.state.rx_bytes_per_second == 0
            &&& after.state.tx_bytes_per_second == 0
            &&& keeps(relay, after, true, true, true, true)
        },
        status == PeerStatus::Unpaired ==> {
            &&& after.state.phase == Phase::Unpaired
            &&& after.state.peer is None
            &&& after.state.rx_bytes_per_second == 0
            &&& after.state.tx_bytes_per_second == 0
            &&& after.peer is None
            &&& after.pairing is None
            &&& after.rx_since_sample == 0
            &&& after.tx_since_sample == 0
            &&& keeps(relay, after, true, false, false, false)
        },
{
}

/// The peer that the runtime paired is known from then on, and shown with its name and both
/// identities in hexadecimal; giving up the pairing ends it and tells the runtime, and changes
/// nothing that is shown.
pub proof fn law_peer_is_known_and_shown(
    relay: Relay,
    bundle: PeerBundle,
    after: Relay,
    action: Action,
    unpaired: Relay,
    unpairing: Action,
)
    requires
        relay.steps(Event::Peer(bundle), after, action),
        relay.steps(Event::Unpair, unpaired, unpairing),
    ensures
        action == Action::Show,
        after.peer == Some(bundle),
        after.state.peer matches Some(shown) && shown.name@ == bundle.name@ && shown.passport_qid@
            == hex_text(bundle.qid@) && shown.desktop_qid@ == hex_text(relay.qid@),
        after.state.phase == relay.state.phase,
        after.state.rx_bytes_per_second == relay.state.rx_bytes_per_second,
        after.state.tx_bytes_per_second == relay.state.tx_bytes_per_second,
        keeps(relay, after, true, false, true, true),
        unpairing == Action::Unpair,
        unpaired.pairing is None,
        unpaired.state == relay.state,
        keeps(relay, unpaired, true, true, false, true),
{
}

/// The Passport is provisioned if the runtime told who it is, and shown as failed if not; it
/// is ready exactly if its bundles were installed and it is attached at the router.
pub proof fn law_provisioning_ends_ready_or_failed(
    relay: Relay,
    after: Relay,
    action: Action,
    outcome: Provision,
    last: Relay,
    shown: Action,
)
    requires
        relay.steps(Event::Provision, after, action),
        relay.steps(Event::Provisioned(outcome), last, shown),
    ensures
        relay.peer matches Some(peer) ==> {
            &&& action matches Action::Install(bundle) && bundle.qid@ == peer.qid@ && bundle.name@
                == peer.name@ && bundle.encoded@ == peer.encoded@
            &&& after.state.phase == Phase::Provisioning
        },
        relay.peer is None ==> action == Action::Show && after.state.phase == Phase::Failed,
        keeps(relay, after, true, true, true, true),
        after.state.peer == relay.state.peer,
        after.state.rx_bytes_per_second == relay.state.rx_bytes_per_second,
        after.state.tx_bytes_per_second == relay.state.tx_bytes_per_second,
        shown == Action::Show,
        last.state.phase == Phase::Ready <==> outcome is Attached,
        last.state.phase == Phase::Failed <==> !(outcome is Attached),
        last.state.peer == relay.state.peer,
        last.state.rx_bytes_per_second == relay.state.rx_bytes_per_second,
        last.state.tx_bytes_per_second == relay.state.tx_bytes_per_second,
        keeps(relay, last, true, true, true, true),
{
}

/// A record that was written wholly over a link is answered for and changes nothing; without
/// a link the answer is that it was not written; one that was cut drops the link, ends the
/// session, forgets the counts and shows the failure, but keeps the pairing.
pub proof fn law_cut_write_drops_the_link(
    relay: Relay,
    complete: bool,
    after: Relay,
    action: Action,
)
    requires
        relay.steps(Event::Written(complete), after, action),
    ensures
        relay.linked is Some && complete ==> action == Action::Answer(true) && after == relay,
        relay.linked is None ==> action == Action::Answer(false) && after == relay,
        relay.linked is Some && !complete ==> {
            &&& action == Action::Drop
            &&& after.linked is None
            &&& after.rx_since_sample == 0
            &&& after.tx_since_sample == 0
            &&& after.state.phase == Phase::Failed
            &&& after.state.peer == relay.state.peer
            &&& after.state.rx_bytes_per_second == 0
            &&& after.state.tx_bytes_per_second == 0
            &&& keeps(relay, after, false, true, true, false)
        },
{
}

/// A Passport that was found is being connected to; once it is linked, newly at the target's
/// address or still, counting starts anew and the runtime pairs by the target's invitation,
/// with the identity that it names. A search that failed is shown and keeps all else. A
/// Passport that goes away takes the link, the pairing, the counts and the rates with it.
pub proof fn law_link_comes_and_goes(
    relay: Relay,
    target: Target,
    newly: bool,
    found: Relay,
    finding: Action,
    linked: Relay,
    linking: Action,
    failed: Relay,
    failing: Action,
    gone: Relay,
    going: Action,
)
    requires
        relay.steps(Event::Found, found, finding),
        relay.steps(Event::Linked { target, newly }, linked, linking),
        relay.steps(Event::LinkFailed, failed, failing),
        relay.steps(Event::Disconnected, gone, going),
    ensures
        finding == Action::Show,
        found.state.phase == Phase::Connecting,
        keeps(relay, found, true, true, true, true),
        linking == Action::StartPairing(target.invite),
        linked.linked == if newly {
            Some(target.address)
        } else {
            relay.linked
        },
        linked.pairing matches Some(qid) && qid@ == target.invite.qid@,
        linked.state.phase == Phase::BluetoothConnected,
        linked.state.peer == relay.state.peer,
        linked.state.rx_bytes_per_second == relay.state.rx_bytes_per_second,
        linked.state.tx_bytes_per_second == relay.state.tx_bytes_per_second,
        linked.rx_since_sample == 0,
        linked.tx_since_sample == 0,
        keeps(relay, linked, false, true, false, false),
        failing == Action::Show,
        failed.state.phase == Phase::Failed,
        keeps(relay, failed, true, true, true, true),
        found.state.peer == relay.state.peer && failed.state.peer == relay.state.peer,
        going == Action::Close,
        gone.linked is None,
        gone.pairing is None,
        gone.rx_since_sample == 0,
        gone.tx_since_sample == 0,
        gone.state.phase == Phase::Failed,
        gone.state.peer == relay.state.peer,
        gone.state.rx_bytes_per_second == 0,
        gone.state.tx_bytes_per_second == 0,
        keeps(relay, gone, false, true, false, false),
{
}

/// A sample shows both rates that were measured and starts counting anew; it is shown exactly
/// if one of the rates is news.
pub proof fn law_sample_shows_what_was_measured(
    relay: Relay,
    rx: u64,
    tx: u64,
    after: Relay,
    action: Action,
)
    requires
        relay.steps(Event::Sample { rx, tx }, after, action),
    ensures
        after.state.rx_bytes_per_second == rx,
        after.state.tx_bytes_per_second == tx,
        after.rx_since_sample == 0,
        after.tx_since_sample == 0,
        after.state.phase == relay.state.phase,
        after.state.peer == relay.state.peer,
        keeps(relay, after, true, true, true, false),
        action is Quiet <==> after.state == relay.state,
        action is Show <==> after.state != relay.state,
{
}

/// What the router sends goes to the Passport, and what the relay has for the router goes
/// there, as it is; reading starts anew only behind a record that was handed on, so that a
/// message never interrupts a frame; whatever ends the connection leads to another one, and
/// only the end of the relay to none.
pub proof fn law_uplink_carries_all(event: UplinkEvent)
    ensures
        event matches UplinkEvent::Record(record) ==> uplink_step_of(event) == UplinkStep::Write(
            record,
        ),
        event matches UplinkEvent::Outbound(RouterMessage::Record(record)) ==> uplink_step_of(event)
            == UplinkStep::Send(record),
        event matches UplinkEvent::Outbound(RouterMessage::Attach(peer)) ==> uplink_step_of(event)
            == UplinkStep::Attach(peer),
        uplink_step_of(event) is Read <==> event is Connected || event is Written,
        uplink_step_of(event) is Resume <==> event is Sent,
        uplink_step_of(event) is Stop <==> event is OutboundClosed,
        uplink_step_of(event) is Reconnect <==> event is Unavailable || event is Ended || (
        event is ReadFailed) || event is WriteFailed,
        RECONNECT_DELAY == 1,
{
}

/// The value of a key is that of the first pair with it; there is none exactly if no pair has
/// it.
pub proof fn law_first_value_is_taken(
    pairs: Seq<(Seq<char>, Seq<char>)>,
    key: Seq<char>,
    at: int,
)
    requires
        0 <= at <= pairs.len(),
        forall|i: int| 0 <= i < at ==> (#[trigger] pairs[i]).0 != key,
        at < pairs.len() ==> pairs[at].0 == key,
    ensures
        first_value_of(pairs, key) == if at < pairs.len() {
            Some(pairs[at].1)
        } else {
            None
        },
    decreases pairs.len(),
{
    if pairs.len() > 0 && at > 0 {
        let rest = pairs.skip(1);
        assert(pairs[0].0 != key);
        assert forall|i: int| 0 <= i < at - 1 implies (#[trigger] rest[i]).0 != key by {
            assert(rest[i] == pairs[i + 1]);
        }
        law_first_value_is_taken(rest, key, at - 1);
    }
}

/// A link is a pairing link exactly if its host is that of pairing links, letter for letter,
/// and its query has an address under `p` and an even number of hexadecimal digits under `k`;
/// of each key the first value counts. `p` and `k` are where those stand.
pub proof fn law_pairing_link(
    host: Seq<char>,
    pairs: Seq<(Seq<char>, Seq<char>)>,
    p: int,
    k: int,
)
    requires
        0 <= p < pairs.len(),
        0 <= k < pairs.len(),
        pairs[p].0 == "p"@,
        pairs[k].0 == "k"@,
        forall|i: int| 0 <= i < p ==> (#[trigger] pairs[i]).0 != "p"@,
        forall|i: int| 0 <= i < k ==> (#[trigger] pairs[i]).0 != "k"@,
    ensures
        link_parts(Some((Some(host), pairs))) == if host == "qr.foundation.xyz"@ && is_hex(
            pairs[k].1,
        ) {
            Some((pairs[p].1, hex_bytes(pairs[k].1)))
        } else {
            None
        },
{
    law_first_value_is_taken(pairs, "p"@, p);
    law_first_value_is_taken(pairs, "k"@, k);
}

/// What lacks a host or one of the two values, and what is no URL, is no pairing link.
pub proof fn law_no_pairing_link(
    host: Option<Seq<char>>,
    pairs: Seq<(Seq<char>, Seq<char>)>,
    key: Seq<char>,
)
    requires
        key == "p"@ || key == "k"@,
        forall|i: int| 0 <= i < pairs.len() ==> (#[trigger] pairs[i]).0 != key,
    ensures
        link_parts(Some((host, pairs))) is None,
        link_parts(Some((None, pairs))) is None,
        link_parts(None) is None,
{
    law_first_value_is_taken(pairs, key, pairs.len() as int);
}

/// A pairing link leads to its address and to the invitation that the codec reads of its
/// bytes, and nowhere exactly if the codec reads none.
pub proof fn law_link_leads_to_its_invitation<D>(
    address: Seq<char>,
    invite: Seq<u8>,
    decode: D,
    decoded: Option<Invite>,
    target: Option<Target>,
) where D: FnOnce(&[u8]) -> Option<Invite>
    requires
        forall|bytes: &[u8], result: Option<Invite>|
            bytes@ == invite && #[trigger] call_ensures(decode, (bytes,), result) ==> result
                == decoded,
        targets(Some((address, invite)), decode, target),
    ensures
        target is Some <==> decoded is Some,
        target matches Some(found) ==> found.address@ == address && Some(found.invite) == decoded,
        forall|other: Option<Target>| targets(None, decode, other) <==> other is None,
{
}

/// A Passport is usable exactly if it offers both characteristics, wherever they stand; each
/// is taken at its first place, and the one for writing is missed first.
pub proof fn law_both_characteristics_are_found(
    uuids: Seq<u128>,
    outcome: Result<(usize, usize), Missing>,
)
    requires
        finds(uuids, outcome),
    ensures
        ({
            let write = 0x6E400002_B5A3_F393_E0A9_E50E24DCCA9Eu128;
            let notify = 0x6E400003_B5A3_F393_E0A9_E50E24DCCA9Eu128;
            &&& outcome is Ok <==> uuids.contains(write) && uuids.contains(notify)
            &&& outcome == Err::<(usize, usize), Missing>(Missing::Write) <==> !uuids.contains(
                write,
            )
            &&& outcome matches Ok((w, n)) ==> {
                &&& w < uuids.len() && n < uuids.len()
                &&& uuids[w as int] == write && uuids[n as int] == notify
                &&& forall|i: int| 0 <= i < w ==> #[trigger] uuids[i] != write
                &&& forall|i: int| 0 <= i < n ==> #[trigger] uuids[i] != notify
            }
        }),
        NUS_UUID == 0x6E400001_B5A3_F393_E0A9_E50E24DCCA9Eu128,
        SEARCH_TIMEOUT == 30,
        SEARCH_INTERVAL == 200,
        SAMPLE_INTERVAL == 1,
{
}

/// Bytes are counted as they come and go, all of them: counting two pieces one after the other
/// is counting them together, and a sample's rates rest on nothing else.
pub proof fn law_bytes_are_counted(relay: Relay, rx: int, tx: int, more: int, further: int)
    requires
        0 <= rx && 0 <= tx && 0 <= more && 0 <= further,
        relay.rx_since_sample + rx + more <= u64::MAX,
        relay.tx_since_sample + tx + further <= u64::MAX,
    ensures
        relay.counting(rx, tx).rx_since_sample == relay.rx_since_sample + rx,
        relay.counting(rx, tx).tx_since_sample == relay.tx_since_sample + tx,
        relay.counting(rx, tx).counting(more, further) == relay.counting(rx + more, tx + further),
        relay.counting(rx, tx).state == relay.state,
        keeps(relay, relay.counting(rx, tx), true, true, true, false),
{
}

} // verus!
