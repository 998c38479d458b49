use ql_lab::protocol::record::{PeerBundle, RecordHeader, RecordType, RouteHeader};
use ql_lab::qid::Qid;
use ql_lab::relay::link::{
    characteristics, same_address, Inbound, Missing, PeerStatus, Phase, Provision, Relay,
    NOTIFY_UUID, WRITE_UUID,
};
use ql_lab::relay::steps::{Action, Event};
use ql_lab::relay::target::{Invite, Target};
use ql_lab::relay::uplink::{uplink_step, RouterMessage, UplinkEvent, UplinkStep};

fn qid(byte: u8) -> Qid {
    Qid { bytes: vec![byte] }
}

fn bundle(byte: u8) -> PeerBundle {
    PeerBundle { qid: qid(byte), name: "Prime".to_owned(), encoded: vec![byte] }
}

fn invite(bytes: &[u8]) -> Option<Invite> {
    if bytes.is_empty() {
        return None;
    }
    Some(Invite { qid: qid(bytes[0]), encoded: bytes.to_vec() })
}

#[test]
fn pairing_links_are_read() {
    let link = "https://qr.foundation.xyz/pair?x=1&p=AA%3ABB&k=0aFF&p=later";
    let target = Target::parse(link, invite).unwrap();
    assert_eq!(target.address, "AA:BB");
    assert_eq!(target.invite.qid, qid(10));
    assert_eq!(target.invite.encoded, vec![0x0a, 0xff]);

    for bad in [
        "not a link",
        "https://example.com/?p=AA&k=0a",
        "https://qr.foundation.xyz/?k=0a",
        "https://qr.foundation.xyz/?p=AA",
        "https://qr.foundation.xyz/?p=AA&k=0",
        "https://qr.foundation.xyz/?p=AA&k=0g",
        "https://qr.foundation.xyz/?p=AA&k=",
        "data:text/plain,p=AA&k=0a",
    ] {
        assert!(Target::parse(bad, invite).is_none(), "{bad}");
    }
}

#[test]
fn parts_of_a_pairing_link_are_read() {
    let pair = |key: &str, value: &str| (key.to_owned(), value.to_owned());
    let pairs = vec![pair("k", "01"), pair("p", "AA"), pair("k", "zz")];
    let host = || Some("qr.foundation.xyz".to_owned());
    let target = Target::from_link(host(), &pairs, invite).unwrap();
    assert_eq!(target.address, "AA");
    assert_eq!(target.invite.qid, qid(1));
    assert!(Target::from_link(None, &pairs, invite).is_none());
    assert!(Target::from_link(host(), &pairs[..1].to_vec(), invite).is_none());
}

#[test]
fn pairing_goes_from_search_to_ready() {
    let mut relay = Relay::new(qid(9));
    assert_eq!(relay.state.phase, Phase::Unpaired);
    assert!(!relay.pair("AA:BB", true));
    assert_eq!(relay.state.phase, Phase::Searching);
    relay.found();
    assert_eq!(relay.state.phase, Phase::Connecting);
    relay.link(Some("AA:BB".to_owned()), qid(1));
    assert_eq!(relay.state.phase, Phase::BluetoothConnected);
    assert!(!relay.status(Some(qid(1)), PeerStatus::Initiator));
    assert_eq!(relay.state.phase, Phase::SecureSession);
    relay.peer(bundle(1));
    let shown = relay.state.peer.clone().unwrap();
    assert_eq!(shown.name, "Prime");
    assert_eq!(shown.passport_qid, "01");
    assert_eq!(shown.desktop_qid, "09");
    // another peer does not end the pairing
    assert!(!relay.status(Some(qid(2)), PeerStatus::Connected));
    assert!(relay.status(Some(qid(1)), PeerStatus::Connected));
    assert_eq!(relay.state.phase, Phase::SecureConnected);
    assert_eq!(relay.provision().unwrap().qid, qid(1));
    assert_eq!(relay.state.phase, Phase::Provisioning);
    relay.provisioned(Provision::Attached);
    assert_eq!(relay.state.phase, Phase::Ready);
    // it is ended once
    assert!(!relay.status(Some(qid(1)), PeerStatus::Connected));

    // the link is used again for the same device, whatever the case of its address
    assert!(relay.pair("aa:bb", true));
    assert_eq!(relay.linked.as_deref(), Some("AA:BB"));
    relay.link(None, qid(1));
    assert_eq!(relay.linked.as_deref(), Some("AA:BB"));
    assert!(!relay.pair("aa:bb", false));
    assert_eq!(relay.linked, None);
}

#[test]
fn failures_are_shown() {
    for outcome in [
        Provision::Unreadable,
        Provision::RequestFailed,
        Provision::Rejected,
        Provision::NotAttached,
    ] {
        let mut relay = Relay::new(qid(9));
        relay.provisioned(outcome);
        assert_eq!(relay.state.phase, Phase::Failed);
    }
    let mut relay = Relay::new(qid(9));
    relay.link(Some("A".to_owned()), qid(1));
    assert!(relay.status(Some(qid(1)), PeerStatus::Connected));
    assert!(relay.provision().is_none());
    assert_eq!(relay.state.phase, Phase::Failed);
    relay.unlinked();
    assert_eq!(relay.state.phase, Phase::Failed);

    relay.link(Some("A".to_owned()), qid(1));
    relay.received(10);
    relay.sample(10, 0);
    relay.disconnected();
    assert_eq!(relay.linked, None);
    assert_eq!(relay.pairing, None);
    assert_eq!(relay.state.rx_bytes_per_second, 0);
    assert_eq!(relay.state.phase, Phase::Failed);
}

#[test]
fn unpairing_forgets_the_peer() {
    let mut relay = Relay::new(qid(9));
    relay.link(Some("A".to_owned()), qid(1));
    relay.peer(bundle(1));
    relay.unpair();
    assert_eq!(relay.pairing, None);
    assert!(relay.peer.is_some());
    assert!(!relay.status(None, PeerStatus::Unpaired));
    assert!(relay.peer.is_none());
    assert!(relay.state.peer.is_none());
    assert_eq!(relay.state.phase, Phase::Unpaired);
    assert_eq!(relay.linked.as_deref(), Some("A"));
    relay.sample(3, 4);
    relay.status(None, PeerStatus::Disconnected);
    assert_eq!(relay.state.phase, Phase::Failed);
    assert_eq!(relay.state.tx_bytes_per_second, 0);
}

#[test]
fn a_failed_write_ends_the_link() {
    let mut relay = Relay::new(qid(9));
    assert_eq!(relay.written(true), (false, false));
    relay.link(Some("A".to_owned()), qid(1));
    relay.sent(20);
    assert_eq!(relay.written(true), (true, false));
    assert_eq!(relay.tx_since_sample, 20);
    assert_eq!(relay.written(false), (false, true));
    assert_eq!(relay.tx_since_sample, 0);
    assert_eq!(relay.linked, None);
    assert_eq!(relay.state.phase, Phase::Failed);
}

#[test]
fn samples_are_news_only_when_a_rate_changed() {
    let mut relay = Relay::new(qid(9));
    relay.received(5);
    relay.received(7);
    assert_eq!(relay.rx_since_sample, 12);
    assert!(relay.sample(12, 0));
    assert_eq!(relay.rx_since_sample, 0);
    assert!(!relay.sample(12, 0));
    assert!(relay.sample(12, 1));
}

fn header(bytes: &[u8]) -> Result<RecordHeader, String> {
    if bytes.len() < 2 {
        return Err("short".to_owned());
    }
    Ok(RecordHeader {
        version: bytes[0],
        route: RouteHeader { sender: qid(1), recipient: qid(bytes[1]) },
        record_type: RecordType::Session,
    })
}

#[test]
fn records_go_to_the_runtime_or_to_the_router() {
    let relay = Relay::new(qid(9));
    assert!(matches!(relay.record(vec![2; 8193], 2, header), Inbound::TooLarge));
    assert!(matches!(relay.record(vec![2], 2, header), Inbound::InvalidHeader));
    assert!(matches!(relay.record(vec![3, 9], 2, header), Inbound::UnsupportedVersion(3)));
    match relay.record(vec![2, 9], 2, header) {
        Inbound::ToRuntime { record, .. } => assert_eq!(record, vec![2, 9]),
        other => panic!("{other:?}"),
    }
    match relay.record(vec![2; 8192], 2, header) {
        Inbound::ToRouter { header, record } => {
            assert_eq!(header.route.recipient, qid(2));
            assert_eq!(record.len(), 8192);
        }
        other => panic!("{other:?}"),
    }
}

#[test]
fn devices_are_recognised() {
    assert!(same_address("AA:0b", "aa:0B"));
    assert!(!same_address("AA:0b", "aa:0c"));
    assert!(!same_address("AA", "AA:0b"));
    assert_eq!(characteristics(&vec![1, NOTIFY_UUID, WRITE_UUID, WRITE_UUID]), Ok((2, 1)));
    assert_eq!(characteristics(&vec![NOTIFY_UUID]), Err(Missing::Write));
    assert_eq!(characteristics(&vec![WRITE_UUID]), Err(Missing::Notify));
    assert_eq!(Missing::Write.message(), "Passport write characteristic unavailable");
    assert_eq!(Missing::Notify.message(), "Passport notification characteristic unavailable");
}

#[test]
fn uplink_reads_on_while_it_sends() {
    let record = |bytes: &[u8]| UplinkEvent::Outbound(RouterMessage::Record(bytes.to_vec()));
    assert!(matches!(uplink_step(UplinkEvent::Unavailable), UplinkStep::Reconnect));
    assert!(matches!(uplink_step(UplinkEvent::Connected), UplinkStep::Read));
    assert!(matches!(uplink_step(UplinkEvent::Record(vec![1])), UplinkStep::Write(r) if r == [1]));
    assert!(matches!(uplink_step(UplinkEvent::Written), UplinkStep::Read));
    assert!(matches!(uplink_step(record(&[2])), UplinkStep::Send(r) if r == [2]));
    let attach = UplinkEvent::Outbound(RouterMessage::Attach(bundle(1)));
    assert!(matches!(uplink_step(attach), UplinkStep::Attach(peer) if peer.qid == qid(1)));
    assert!(matches!(uplink_step(UplinkEvent::Sent), UplinkStep::Resume));
    assert!(matches!(uplink_step(UplinkEvent::WriteFailed), UplinkStep::Reconnect));
    assert!(matches!(uplink_step(UplinkEvent::ReadFailed), UplinkStep::Reconnect));
    assert!(matches!(uplink_step(UplinkEvent::Ended), UplinkStep::Reconnect));
    assert!(matches!(uplink_step(UplinkEvent::OutboundClosed), UplinkStep::Stop));
}

fn target(address: &str) -> Target {
    Target { address: address.to_owned(), invite: invite(&[1, 2]).unwrap() }
}

#[test]
fn steps_lead_through_a_pairing() {
    let mut relay = Relay::new(qid(9));
    let action = relay.step(Event::Pair { target: target("AA"), connected: true });
    assert!(matches!(action, Action::Search(target) if target.address == "AA"));
    assert!(matches!(relay.step(Event::Found), Action::Show));
    let action = relay.step(Event::Linked { target: target("AA"), newly: true });
    assert!(matches!(action, Action::StartPairing(invite) if invite.encoded == [1, 2]));
    assert_eq!(relay.linked.as_deref(), Some("AA"));
    assert_eq!(relay.pairing, Some(qid(1)));
    relay.step(Event::Status(Some(qid(1)), PeerStatus::Initiator));
    assert!(matches!(relay.step(Event::Peer(bundle(1))), Action::Show));
    let action = relay.step(Event::Status(Some(qid(1)), PeerStatus::Connected));
    assert!(matches!(action, Action::Paired));
    assert_eq!(relay.state.phase, Phase::SecureConnected);
    assert!(matches!(relay.step(Event::Provision), Action::Install(peer) if peer.qid == qid(1)));
    assert!(matches!(relay.step(Event::Provisioned(Provision::Attached)), Action::Show));
    assert_eq!(relay.state.phase, Phase::Ready);

    assert!(matches!(relay.step(Event::Written(true)), Action::Answer(true)));
    assert!(matches!(relay.step(Event::Sample { rx: 1, tx: 0 }), Action::Show));
    assert!(matches!(relay.step(Event::Sample { rx: 1, tx: 0 }), Action::Quiet));
    let action = relay.step(Event::Pair { target: target("aa"), connected: true });
    assert!(matches!(action, Action::Reuse(_)));
    relay.step(Event::Linked { target: target("aa"), newly: false });
    assert_eq!(relay.linked.as_deref(), Some("AA"));

    assert!(matches!(relay.step(Event::Unpair), Action::Unpair));
    assert!(matches!(relay.step(Event::Written(false)), Action::Drop));
    assert!(matches!(relay.step(Event::Written(false)), Action::Answer(false)));
    assert!(matches!(relay.step(Event::Disconnected), Action::Close));
    assert!(matches!(relay.step(Event::LinkFailed), Action::Show));
    assert_eq!(relay.state.phase, Phase::Failed);
    // nothing is installed on a Passport that was never told of
    let mut relay = Relay::new(qid(9));
    assert!(matches!(relay.step(Event::Provision), Action::Show));
    assert_eq!(relay.state.phase, Phase::Failed);
}
