//! The relay's run: what it does about each event. The one who runs it performs the action
//! and hands in the next event.
use vstd::prelude::*;

use crate::external::hex_text;
use crate::protocol::record::PeerBundle;
use crate::qid::Qid;
use crate::relay::link::{option_view, PeerStatus, Phase, Provision, Relay};
use crate::relay::target::{Invite, Target};

verus! {

/// What happened.
#[derive(Debug)]
pub enum Event {
    /// The user gives up the Passport.
    Unpair,
    /// The runtime paired with this peer.
    Peer(PeerBundle),
    /// The runtime's session with a peer changed.
    Status(Option<Qid>, PeerStatus),
    /// The state after the pairing was shown, and the Passport is to be provisioned.
    Provision,
    /// The provisioning came to this.
    Provisioned(Provision),
    /// A record is written, wholly or not.
    Written(bool),
    /// The user pairs with this Passport; the device that is linked, if any, is still
    /// connected or not.
    Pair { target: Target, connected: bool },
    /// The Passport was found.
    Found,
    /// The Passport is linked, newly or still.
    Linked { target: Target, newly: bool },
    /// The Passport could not be found or linked.
    LinkFailed,
    /// The Passport went away.
    Disconnected,
    /// A sample ended with these rates.
    Sample { rx: u64, tx: u64 },
}

/// What is done about it. Where the state may have changed, it is shown.
#[derive(Debug)]
pub enum Action {
    /// Nothing more.
    Show,
    /// Tell the runtime to forget its peer.
    Unpair,
    /// Go on, once the state is shown, to provision the Passport.
    Paired,
    /// Install the bundles on the Passport and attach this one at the router.
    Install(PeerBundle),
    /// Answer the one who had the record written.
    Answer(bool),
    /// Answer that the record was not written, drop the link and close the session.
    Drop,
    /// Close the session, drop the link, search for this Passport and link it.
    Search(Target),
    /// Close the session and go on with this Passport, which is linked.
    Reuse(Target),
    /// Have the runtime pair by this invitation.
    StartPairing(Invite),
    /// Drop the link and close the session.
    Close,
    /// Nothing at all.
    Quiet,
}

impl Relay {
    /// What the relay is after an event, and what is done about it.
    pub open spec fn steps(self, event: Event, after: Relay, action: Action) -> bool {
        match event {
            Event::Unpair => {
                &&& after == (Relay { pairing: None, ..self })
                &&& action == Action::Unpair
            },
            Event::Peer(bundle) => {
                &&& action == Action::Show
                &&& after.state.peer matches Some(peer)
                &&& peer.name == bundle.name
                &&& peer.passport_qid@ == hex_text(bundle.qid@)
                &&& peer.desktop_qid@ == hex_text(self.qid@)
                &&& after == self.knowing(bundle, Some(peer))
            },
            Event::Status(qid, status) => {
                &&& after == self.after_status(option_view(qid), status)
                &&& action == if self.is_paired_by(option_view(qid), status) {
                    Action::Paired
                } else {
                    Action::Show
                }
            },
            Event::Provision => {
                &&& after == self.provisioning()
                &&& match self.peer {
                    Some(peer) => action matches Action::Install(bundle) && bundle.same_as(peer),
                    None => action == Action::Show,
                }
            },
            Event::Provisioned(outcome) => {
                &&& action == Action::Show
                &&& after == self.in_phase(
                    if outcome == Provision::Attached {
                        Phase::Ready
                    } else {
                        Phase::Failed
                    },
                )
            },
            Event::Written(complete) => if self.linked is Some && !complete {
                &&& action == Action::Drop
                &&& after == (Relay { linked: None, ..self.broken() })
            } else {
                &&& action == Action::Answer(self.linked is Some)
                &&& after == self
            },
            Event::Pair { target, connected } => {
                let reuse = self.reusable(target.address@, connected);
                &&& after == self.searching(reuse)
                &&& action == if reuse {
                    Action::Reuse(target)
                } else {
                    Action::Search(target)
                }
            },
            Event::Found => action == Action::Show && after == self.in_phase(Phase::Connecting),
            Event::Linked { target, newly } => {
                &&& action == Action::StartPairing(target.invite)
                &&& after.pairing matches Some(qid)
                &&& qid@ == target.invite.qid@
                &&& after == self.pairing_with(
                    if newly {
                        Some(target.address)
                    } else {
                        None
                    },
                    qid,
                )
            },
            Event::LinkFailed => action == Action::Show && after == self.in_phase(Phase::Failed),
            Event::Disconnected => {
                &&& action == Action::Close
                &&& after == (Relay { linked: None, pairing: None, ..self.broken() })
            },
            Event::Sample { rx, tx } => {
                &&& after == self.uncounted().showing(self.state.with_rates(rx, tx))
                &&& action == if self.state.rx_bytes_per_second == rx
                    && self.state.tx_bytes_per_second == tx {
                    Action::Quiet
                } else {
                    Action::Show
                }
            },
        }
    }

    /// Takes an event and tells what is done about it.
    pub fn step(&mut self, event: Event) -> (action: Action)
        ensures
            old(self).steps(event, *final(self), action),
    {
        match event {
            Event::Unpair => {
                self.unpair();
                Action::Unpair
            },
            Event::Peer(bundle) => {
                self.peer(bundle);
                Action::Show
            },
            Event::Status(qid, status) => if self.status(qid, status) {
                Action::Paired
            } else {
                Action::Show
            },
            Event::Provision => match self.provision() {
                Some(bundle) => Action::Install(bundle),
                None => Action::Show,
            },
            Event::Provisioned(outcome) => {
                self.provisioned(outcome);
                Action::Show
            },
            Event::Written(complete) => {
                let (success, close) = self.written(complete);
                if close {
                    Action::Drop
                } else {
                    Action::Answer(success)
                }
            },
            Event::Pair { target, connected } => if self.pair(target.address.as_str(), connected) {
                Action::Reuse(target)
            } else {
                Action::Search(target)
            },
            Event::Found => {
                self.found();
                Action::Show
            },
            Event::Linked { target, newly } => {
                let qid = target.invite.qid.clone();
                self.link(
                    if newly {
                        Some(target.address)
                    } else {
                        None
                    },
                    qid,
                );
                Action::StartPairing(target.invite)
            },
            Event::LinkFailed => {
                self.unlinked();
                Action::Show
            },
            Event::Disconnected => {
                self.disconnected();
                Action::Close
            },
            Event::Sample { rx, tx } => if self.sample(rx, tx) {
                Action::Show
            } else {
                Action::Quiet
            },
        }
    }
}

/// Where nothing is done, where a record is answered for and where the runtime is told to
/// forget its peer, the state that is shown is what it was.
pub proof fn law_quiet_steps_change_nothing_shown(
    relay: Relay,
    event: Event,
    after: Relay,
    action: Action,
)
    requires
        relay.steps(event, after, action),
        action is Quiet || action is Answer || action is Unpair,
    ensures
        after.state == relay.state,
{
}

/// A Passport is provisioned only with the bundle that the runtime paired, and a pairing is
/// started only with the Passport that was linked for it.
pub proof fn law_actions_name_their_peer(
    relay: Relay,
    event: Event,
    after: Relay,
    action: Action,
)
    requires
        relay.steps(event, after, action),
    ensures
        action matches Action::Install(bundle) ==> relay.peer is Some && bundle.same_as(
            relay.peer->0,
        ) && after.state.phase == Phase::Provisioning,
        action matches Action::StartPairing(invite) ==> {
            &&& option_view(after.pairing) == Some(invite.qid@)
            &&& after.state.phase == Phase::BluetoothConnected
        },
{
}

/// After the link is dropped, whether by a failed write or by the Passport itself, no bytes
/// are counted, no rate is shown, and the relay shows that it failed.
pub proof fn law_dropped_link_is_shown(relay: Relay, event: Event, after: Relay, action: Action)
    requires
        relay.steps(event, after, action),
        action is Drop || action is Close,
    ensures
        after.linked is None,
        after.state.phase == Phase::Failed,
        after.rx_since_sample == 0 && after.tx_since_sample == 0,
        after.state.rx_bytes_per_second == 0 && after.state.tx_bytes_per_second == 0,
{
}

} // verus!
