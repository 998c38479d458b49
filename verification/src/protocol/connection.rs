//! The routes of one connection to the router: how a peer proves that an identity is its
//! own, and what becomes of the packets that it sends.
use vstd::prelude::*;

use crate::error::{invalid_data, Error, ErrorKind};
use crate::protocol::frame::Frame;
use crate::protocol::record::{PeerBundle, RecordHeader};
use crate::protocol::secure::{opens, SecureReceiver, SessionKey};
use crate::protocol::wire::{PacketKind, MAX_ROUTES_PER_CONNECTION};
use crate::qid::{position, qid_views, Qid};

verus! {

/// How far an attachment has come. The bytes beside a challenge are the identity that is
/// being challenged; they exist for the proof alone.
pub enum RouteTransition<C> {
    /// No attachment is in progress.
    Ready,
    /// The peer has been sent a challenge.
    Challenging(C, Ghost<Seq<u8>>),
    /// The peer has answered; the route waits to be committed.
    Verified(Qid),
}

/// What is to be done with a packet.
#[derive(Debug)]
pub enum RouterAction {
    /// Challenge the identity of this bundle.
    Attach(PeerBundle),
    /// Check this answer to the challenge.
    Authenticate(Vec<u8>),
    /// Hand the record on, unchanged.
    Forward { sender: Qid, recipient: Qid, record: Vec<u8> },
    /// Drop the record: its sender did not authenticate here.
    Unauthenticated { sender: Qid, recipient: Qid },
}

/// The router's side of a connection.
pub struct RouterConnection<C> {
    identity: Qid,
    secure: SecureReceiver,
    transition: RouteTransition<C>,
    next_handshake_id: u32,
    routes: Vec<Qid>,
}

impl<C> RouterConnection<C> {
    /// The router's own identity.
    pub closed spec fn spec_identity(self) -> Seq<u8> {
        self.identity@
    }

    /// The inbound direction.
    pub closed spec fn spec_secure(self) -> SecureReceiver {
        self.secure
    }

    /// How far the current attachment has come.
    pub closed spec fn spec_transition(self) -> RouteTransition<C> {
        self.transition
    }

    /// The number of the next challenge.
    pub closed spec fn spec_next_handshake_id(self) -> u32 {
        self.next_handshake_id
    }

    /// The identities that the connection has proved, in the order of their commitment.
    pub closed spec fn spec_routes(self) -> Seq<Seq<u8>> {
        qid_views(self.routes@)
    }

    /// No identity is held twice.
    pub open spec fn well_formed(self) -> bool {
        self.spec_routes().no_duplicates()
    }

    /// The connection owns no more routes than it may, and there is room for the one that
    /// is being attached.
    pub open spec fn within_limit(self) -> bool {
        &&& self.spec_routes().len() <= MAX_ROUTES_PER_CONNECTION
        &&& match self.spec_transition() {
            RouteTransition::Ready => true,
            RouteTransition::Challenging(_, qid) => self.has_room(qid@),
            RouteTransition::Verified(qid) => self.has_room(qid@),
        }
    }

    /// Whether this identity may be committed without passing the limit.
    pub open spec fn has_room(self, qid: Seq<u8>) -> bool {
        self.spec_routes().contains(qid) || self.spec_routes().len() < MAX_ROUTES_PER_CONNECTION
    }

    /// Everything but the inbound direction is as it was.
    pub open spec fn same_routes(self, other: Self) -> bool {
        &&& self.spec_identity() == other.spec_identity()
        &&& self.spec_transition() == other.spec_transition()
        &&& self.spec_next_handshake_id() == other.spec_next_handshake_id()
        &&& self.spec_routes() == other.spec_routes()
    }

    /// Whether a call may turn one connection into the other, and commits this identity or
    /// none: a challenge begins, unless all routes are taken and its identity is none of
    /// them; it is answered or given up; and the identity that was proved is committed.
    pub open spec fn leads_to(self, after: Self, committed: Option<Seq<u8>>) -> bool {
        &&& after.spec_identity() == self.spec_identity()
        &&& match committed {
            Some(qid) => {
                &&& self.spec_transition() matches RouteTransition::Verified(proved)
                &&& proved@ == qid
                &&& after.spec_transition() is Ready
                &&& after.spec_routes() == if self.spec_routes().contains(qid) {
                    self.spec_routes()
                } else {
                    self.spec_routes().push(qid)
                }
            },
            None => {
                &&& after.spec_routes() == self.spec_routes()
                &&& after.spec_transition() == self.spec_transition()
                    || match self.spec_transition() {
                    RouteTransition::Ready => {
                        &&& after.spec_transition() matches RouteTransition::Challenging(_, qid)
                        &&& self.spec_routes().len() == MAX_ROUTES_PER_CONNECTION
                            ==> self.spec_routes().contains(qid@)
                    },
                    RouteTransition::Challenging(_, _) => !(after.spec_transition() is Challenging),
                    RouteTransition::Verified(_) => false,
                }
            },
        }
    }

    /// Whether an answer, if one was taken in between, proved the identity that was
    /// challenged.
    pub open spec fn proves_the_challenged(self, after: Self) -> bool {
        match (self.spec_transition(), after.spec_transition()) {
            (
                RouteTransition::Challenging(_, challenged),
                RouteTransition::Verified(proved),
            ) => proved@ == challenged@,
            _ => true,
        }
    }

    /// Whatever is called in the life of a connection, its routes are the identities that
    /// were committed, each once, and no call but a commitment changes them. Where every
    /// answer proves the identity that was challenged, the routes never pass their limit.
    /// `run` holds the connection at the start and after each call, `committed` what each
    /// call committed.
    pub proof fn law_routes_are_the_committed(run: Seq<Self>, committed: Seq<Option<Seq<u8>>>)
        requires
            run.len() == committed.len() + 1,
            run[0].spec_routes() == Seq::<Seq<u8>>::empty(),
            run[0].spec_transition() is Ready,
            forall|i: int|
                0 <= i < committed.len() ==> run[i].leads_to(run[i + 1], #[trigger] committed[i]),
        ensures
            run.last().well_formed(),
            forall|qid: Seq<u8>|
                run.last().spec_routes().contains(qid) <==> #[trigger] committed.contains(
                    Some(qid),
                ),
            forall|i: int|
                0 <= i < committed.len() && (#[trigger] committed[i]) is None
                    ==> run[i + 1].spec_routes() == run[i].spec_routes(),
            (forall|i: int|
                0 <= i < committed.len() ==> (#[trigger] run[i]).proves_the_challenged(run[i + 1]))
                ==> run.last().within_limit(),
        decreases committed.len(),
    {
        if committed.len() > 0 {
            let n = committed.len() - 1;
            let earlier = run.drop_last();
            let before = committed.drop_last();
            assert forall|i: int| 0 <= i < before.len() implies earlier[i].leads_to(
                earlier[i + 1],
                #[trigger] before[i],
            ) by {
                assert(before[i] == committed[i]);
            }
            Self::law_routes_are_the_committed(earlier, before);
            assert(run[n].leads_to(run[n + 1], committed[n]));
            let held = run[n].spec_routes();
            let routes = run[n + 1].spec_routes();
            assert forall|qid: Seq<u8>|
                routes.contains(qid) <==> #[trigger] committed.contains(Some(qid)) by {
                assert(held.contains(qid) <==> before.contains(Some(qid)));
                if before.contains(Some(qid)) {
                    let i = choose|i: int| 0 <= i < before.len() && before[i] == Some(qid);
                    assert(committed[i] == Some(qid));
                }
                if committed.contains(Some(qid)) && committed[n] != Some(qid) {
                    let i = choose|i: int| 0 <= i < committed.len() && committed[i] == Some(qid);
                    assert(before[i] == Some(qid));
                }
                if let Some(last) = committed[n] {
                    if !held.contains(last) {
                        assert(routes[held.len() as int] == last);
                        if held.contains(qid) {
                            let i = choose|i: int| 0 <= i < held.len() && held[i] == qid;
                            assert(routes[i] == qid);
                        }
                    }
                }
            }
            if forall|i: int|
                0 <= i < committed.len() ==> (#[trigger] run[i]).proves_the_challenged(run[i + 1]) {
                assert forall|i: int| 0 <= i < before.len() implies (
                #[trigger] earlier[i]).proves_the_challenged(earlier[i + 1]) by {
                    assert(earlier[i] == run[i]);
                }
                assert(run[n].proves_the_challenged(run[n + 1]));
            }
        }
    }

    /// A connection that has proved nothing yet.
    pub fn new(identity: Qid, secure: SecureReceiver) -> (connection: Self)
        ensures
            connection.well_formed(),
            connection.within_limit(),
            connection.spec_identity() == identity@,
            connection.spec_secure() == secure,
            connection.spec_transition() == RouteTransition::<C>::Ready,
            connection.spec_next_handshake_id() == 1,
            connection.spec_routes() == Seq::<Seq<u8>>::empty(),
    {
        let connection = RouterConnection {
            identity,
            secure,
            transition: RouteTransition::Ready,
            next_handshake_id: 1,
            routes: Vec::new(),
        };
        assert(connection.spec_routes() =~= Seq::<Seq<u8>>::empty());
        connection
    }

    /// What becomes of an attachment, given what the codec makes of it: the bundle and how
    /// many bytes follow it.
    pub open spec fn attaches(
        self,
        decoded: Result<(PeerBundle, usize), String>,
        outcome: Result<RouterAction, Error>,
    ) -> bool {
        match decoded {
            Err(text) => action_failed(outcome, Error::Rejected(text)),
            Ok((bundle, trailing)) => if trailing != 0 {
                action_failed(outcome, Error::InvalidAttachment)
            } else {
                outcome == Ok::<RouterAction, Error>(RouterAction::Attach(bundle))
            },
        }
    }

    /// What becomes of a record, given what the codec makes of its header.
    pub open spec fn routes_record(
        self,
        payload: Vec<u8>,
        decoded: Result<RecordHeader, String>,
        outcome: Result<RouterAction, Error>,
    ) -> bool {
        match decoded {
            Err(text) => action_failed(outcome, Error::Rejected(text)),
            Ok(header) => if header.route.recipient@ == self.spec_identity() {
                if self.spec_transition() is Challenging {
                    outcome == Ok::<RouterAction, Error>(RouterAction::Authenticate(payload))
                } else {
                    action_failed(outcome, Error::NoChallenge)
                }
            } else if self.spec_routes().contains(header.route.sender@) {
                outcome == Ok::<RouterAction, Error>(
                    RouterAction::Forward {
                        sender: header.route.sender,
                        recipient: header.route.recipient,
                        record: payload,
                    },
                )
            } else {
                outcome == Ok::<RouterAction, Error>(
                    RouterAction::Unauthenticated {
                        sender: header.route.sender,
                        recipient: header.route.recipient,
                    },
                )
            },
        }
    }

    /// What becomes of a packet. The bundle of an attachment and the header of a record
    /// are read by the codecs that are given.
    pub open spec fn acts<D, R>(
        self,
        kind: PacketKind,
        payload: Vec<u8>,
        decode_bundle: D,
        decode_header: R,
        outcome: Result<RouterAction, Error>,
    ) -> bool where
        D: FnOnce(&[u8]) -> Result<(PeerBundle, usize), String>,
        R: FnOnce(&[u8]) -> Result<RecordHeader, String>,
     {
        match kind {
            PacketKind::Confirm => action_failed(outcome, Error::UnexpectedPacket),
            PacketKind::Attach => if !(self.spec_transition() is Ready) {
                action_failed(outcome, Error::ChallengeActive)
            } else {
                exists|bytes: &[u8], decoded: Result<(PeerBundle, usize), String>|
                    {
                        &&& bytes@ == payload@
                        &&& #[trigger] call_ensures(decode_bundle, (bytes,), decoded)
                        &&& self.attaches(decoded, outcome)
                    }
            },
            PacketKind::Record => if self.spec_routes().len() == 0
                && self.spec_transition() is Ready {
                action_failed(outcome, Error::NotAttached)
            } else {
                exists|bytes: &[u8], decoded: Result<RecordHeader, String>|
                    {
                        &&& bytes@ == payload@
                        &&& #[trigger] call_ensures(decode_header, (bytes,), decoded)
                        &&& self.routes_record(payload, decoded, outcome)
                    }
            },
        }
    }

    /// What comes of a frame: what opening it comes to, and what becomes of the packet in it.
    pub open spec fn receives<V, D, R>(
        self,
        frame: Seq<u8>,
        verify: V,
        decode_bundle: D,
        decode_header: R,
        after: Self,
        outcome: Result<RouterAction, Error>,
    ) -> bool where
        V: FnOnce(&SessionKey, u64, &[u8], &[u8]) -> bool,
        D: FnOnce(&[u8]) -> Result<(PeerBundle, usize), String>,
        R: FnOnce(&[u8]) -> Result<RecordHeader, String>,
     {
        &&& after.same_routes(self)
        &&& if self.spec_transition() is Verified {
            &&& action_failed(outcome, Error::RouteNotCommitted)
            &&& after.spec_secure() == self.spec_secure()
        } else {
            exists|opened: Result<(PacketKind, Vec<u8>), Error>|
                {
                    &&& #[trigger] opens(
                        self.spec_secure(),
                        frame,
                        verify,
                        after.spec_secure(),
                        opened,
                    )
                    &&& match opened {
                        Err(error) => action_failed(outcome, error),
                        Ok((kind, payload)) => self.acts(
                            kind,
                            payload,
                            decode_bundle,
                            decode_header,
                            outcome,
                        ),
                    }
                }
        }
    }

    /// Opens a frame and tells what is to be done with the packet in it.
    pub fn receive<V, D, R>(
        &mut self,
        frame: Frame,
        verify: V,
        decode_bundle: D,
        decode_header: R,
    ) -> (outcome: Result<RouterAction, Error>) where
        V: FnOnce(&SessionKey, u64, &[u8], &[u8]) -> bool,
        D: FnOnce(&[u8]) -> Result<(PeerBundle, usize), String>,
        R: FnOnce(&[u8]) -> Result<RecordHeader, String>,

        requires
            forall|key: &SessionKey, counter: u64, bytes: &[u8], tag: &[u8]|
                call_requires(verify, (key, counter, bytes, tag)),
            forall|bytes: &[u8]| call_requires(decode_bundle, (bytes,)),
            forall|bytes: &[u8]| call_requires(decode_header, (bytes,)),
        ensures
            old(self).receives(
                frame@,
                verify,
                decode_bundle,
                decode_header,
                *final(self),
                outcome,
            ),
            final(self).same_routes(*old(self)),
            old(self).leads_to(*final(self), None),
            old(self).spec_transition() is Verified ==> {
                &&& action_failed(outcome, Error::RouteNotCommitted)
                &&& final(self).spec_secure() == old(self).spec_secure()
            },
            !(old(self).spec_transition() is Verified) ==> exists|
                opened: Result<(PacketKind, Vec<u8>), Error>,
            |
                {
                    &&& #[trigger] opens(
                        old(self).spec_secure(),
                        frame@,
                        verify,
                        final(self).spec_secure(),
                        opened,
                    )
                    &&& match opened {
                        Err(error) => action_failed(outcome, error),
                        Ok((kind, payload)) => old(self).acts(
                            kind,
                            payload,
                            decode_bundle,
                            decode_header,
                            outcome,
                        ),
                    }
                },
            outcome matches Ok(RouterAction::Forward { sender, recipient, .. }) ==> old(
                self,
            ).spec_routes().contains(sender@) && recipient@ != old(self).spec_identity(),
    {
        if let RouteTransition::Verified(_) = &self.transition {
            return Err(Error::RouteNotCommitted);
        }
        let opened = self.secure.open(frame, verify);
        let ghost seen = opened;
        assert(opens(old(self).spec_secure(), frame@, verify, self.spec_secure(), seen));
        match opened {
            Err(error) => Err(error),
            Ok((kind, payload)) => self.handle_packet(kind, payload, decode_bundle, decode_header),
        }
    }

    /// Tells what is to be done with a packet that was opened.
    pub fn handle_packet<D, R>(
        &self,
        kind: PacketKind,
        payload: Vec<u8>,
        decode_bundle: D,
        decode_header: R,
    ) -> (outcome: Result<RouterAction, Error>) where
        D: FnOnce(&[u8]) -> Result<(PeerBundle, usize), String>,
        R: FnOnce(&[u8]) -> Result<RecordHeader, String>,

        requires
            forall|bytes: &[u8]| call_requires(decode_bundle, (bytes,)),
            forall|bytes: &[u8]| call_requires(decode_header, (bytes,)),
        ensures
            self.acts(kind, payload, decode_bundle, decode_header, outcome),
    {
        match kind {
            PacketKind::Attach => {
                if !matches!(&self.transition, RouteTransition::Ready) {
                    return Err(Error::ChallengeActive);
                }
                let bytes = payload.as_slice();
                let decoded = decode_bundle(bytes);
                let ghost seen = decoded;
                assert(call_ensures(decode_bundle, (bytes,), seen));
                let outcome = match decoded {
                    Err(text) => Err(invalid_data(text)),
                    Ok((bundle, trailing)) => if trailing != 0 {
                        Err(Error::InvalidAttachment)
                    } else {
                        Ok(RouterAction::Attach(bundle))
                    },
                };
                assert(self.attaches(seen, outcome));
                outcome
            },
            PacketKind::Record => {
                if self.routes.len() == 0 && matches!(&self.transition, RouteTransition::Ready) {
                    return Err(Error::NotAttached);
                }
                let bytes = payload.as_slice();
                let decoded = decode_header(bytes);
                let ghost seen = decoded;
                assert(call_ensures(decode_header, (bytes,), seen));
                let header = match decoded {
                    Err(text) => return Err(invalid_data(text)),
                    Ok(header) => header,
                };
                if header.route.recipient == self.identity {
                    if !matches!(&self.transition, RouteTransition::Challenging(_, _)) {
                        return Err(Error::NoChallenge);
                    }
                    return Ok(RouterAction::Authenticate(payload));
                }
                let sender = header.route.sender;
                let recipient = header.route.recipient;
                let outcome = if position(&self.routes, &sender).is_some() {
                    Ok(RouterAction::Forward { sender, recipient, record: payload })
                } else {
                    Ok(RouterAction::Unauthenticated { sender, recipient })
                };
                assert(self.routes_record(payload, seen, outcome));
                outcome
            },
            PacketKind::Confirm => Err(Error::UnexpectedPacket),
        }
    }

    /// What comes of challenging the identity of a bundle: one at a time, and if it is valid.
    pub open spec fn begins<A, N>(
        self,
        bundle: PeerBundle,
        validate: A,
        challenge: N,
        after: Self,
        outcome: Result<(Qid, Vec<u8>), Error>,
    ) -> bool where
        A: FnOnce(&PeerBundle) -> Result<(), String>,
        N: FnOnce(PeerBundle, u32) -> Result<(C, Vec<u8>), String>,
     {
        &&& after.spec_identity() == self.spec_identity()
        &&& after.spec_secure() == self.spec_secure()
        &&& after.spec_routes() == self.spec_routes()
        &&& outcome is Err ==> after.same_routes(self)
        &&& if !(self.spec_transition() is Ready) {
            challenge_failed(outcome, Error::TransitionActive)
        } else {
            exists|valid: Result<(), String>|
                {
                    &&& #[trigger] call_ensures(validate, (&bundle,), valid)
                    &&& match valid {
                        Err(text) => challenge_failed(outcome, Error::Rejected(text)),
                        Ok(_) => self.challenges(bundle, challenge, after, outcome),
                    }
                }
        }
    }

    /// Challenges the identity of a bundle. `validate` checks the bundle; `challenge`
    /// makes the challenge with the number that it is given, and the record that carries
    /// it.
    pub fn begin_challenge<A, N>(
        &mut self,
        bundle: PeerBundle,
        validate: A,
        challenge: N,
    ) -> (outcome: Result<(Qid, Vec<u8>), Error>) where
        A: FnOnce(&PeerBundle) -> Result<(), String>,
        N: FnOnce(PeerBundle, u32) -> Result<(C, Vec<u8>), String>,

        requires
            forall|bundle: &PeerBundle| call_requires(validate, (bundle,)),
            forall|bundle: PeerBundle, id: u32| call_requires(challenge, (bundle, id)),
        ensures
            old(self).begins(bundle, validate, challenge, *final(self), outcome),
            final(self).spec_identity() == old(self).spec_identity(),
            final(self).spec_secure() == old(self).spec_secure(),
            final(self).spec_routes() == old(self).spec_routes(),
            old(self).within_limit() ==> final(self).within_limit(),
            outcome is Err ==> final(self).same_routes(*old(self)),
            old(self).leads_to(*final(self), None),
            !(old(self).spec_transition() is Ready) ==> challenge_failed(
                outcome,
                Error::TransitionActive,
            ),
            old(self).spec_transition() is Ready ==> exists|valid: Result<(), String>|
                {
                    &&& #[trigger] call_ensures(validate, (&bundle,), valid)
                    &&& match valid {
                        Err(text) => challenge_failed(outcome, Error::Rejected(text)),
                        Ok(_) => old(self).challenges(bundle, challenge, *final(self), outcome),
                    }
                },
    {
        if !matches!(&self.transition, RouteTransition::Ready) {
            return Err(Error::TransitionActive);
        }
        let valid = validate(&bundle);
        let ghost seen = valid;
        assert(call_ensures(validate, (&bundle,), seen));
        if let Err(text) = valid {
            return Err(invalid_data(text));
        }
        let qid = bundle.qid.clone();
        if self.routes.len() == MAX_ROUTES_PER_CONNECTION && position(
            &self.routes,
            &qid,
        ).is_none() {
            return Err(Error::RouteLimit);
        }
        let id: u32 = self.next_handshake_id;
        let next: u32 = match id.checked_add(1) {
            Some(next) => next,
            None => return Err(Error::HandshakeIdExhausted),
        };
        let made = challenge(bundle, id);
        let ghost seen_made = made;
        assert(call_ensures(challenge, (bundle, id), seen_made));
        match made {
            Err(text) => Err(invalid_data(text)),
            Ok((challenge, request)) => {
                self.next_handshake_id = next;
                self.transition = RouteTransition::Challenging(challenge, Ghost(qid@));
                Ok((qid, request))
            },
        }
    }

    /// What comes of challenging the identity of a valid bundle while no attachment is in
    /// progress: the limit and the numbers are looked at before the challenge is made.
    pub open spec fn challenges<N>(
        self,
        bundle: PeerBundle,
        challenge: N,
        after: Self,
        outcome: Result<(Qid, Vec<u8>), Error>,
    ) -> bool where N: FnOnce(PeerBundle, u32) -> Result<(C, Vec<u8>), String> {
        if self.spec_routes().len() == MAX_ROUTES_PER_CONNECTION && !self.spec_routes().contains(
            bundle.qid@,
        ) {
            challenge_failed(outcome, Error::RouteLimit)
        } else if self.spec_next_handshake_id() == u32::MAX {
            challenge_failed(outcome, Error::HandshakeIdExhausted)
        } else {
            exists|made: Result<(C, Vec<u8>), String>|
                {
                    &&& #[trigger] call_ensures(
                        challenge,
                        (bundle, self.spec_next_handshake_id()),
                        made,
                    )
                    &&& match made {
                        Err(text) => challenge_failed(outcome, Error::Rejected(text)),
                        Ok((challenge, request)) => {
                            &&& outcome matches Ok(begun)
                            &&& begun.0@ == bundle.qid@
                            &&& begun.1 == request
                            &&& after.spec_next_handshake_id() == self.spec_next_handshake_id() + 1
                            &&& after.spec_transition() == RouteTransition::Challenging(
                                challenge,
                                Ghost(bundle.qid@),
                            )
                        },
                    }
                }
        }
    }

    /// What comes of an answer to the challenge: without a challenge nothing, and else what
    /// `verify` makes of the challenge and the answer.
    pub open spec fn verifies<V>(
        self,
        record: &[u8],
        verify: V,
        after: Self,
        outcome: Result<Vec<u8>, Error>,
    ) -> bool where V: FnOnce(C, &[u8]) -> Result<(Qid, Vec<u8>), String> {
        &&& after.spec_identity() == self.spec_identity()
        &&& after.spec_secure() == self.spec_secure()
        &&& after.spec_routes() == self.spec_routes()
        &&& after.spec_next_handshake_id() == self.spec_next_handshake_id()
        &&& match self.spec_transition() {
            RouteTransition::Challenging(challenge, _) => exists|
                verified: Result<(Qid, Vec<u8>), String>,
            |
                {
                    &&& #[trigger] call_ensures(verify, (challenge, record), verified)
                    &&& match verified {
                        Err(text) => {
                            &&& outcome == Err::<Vec<u8>, Error>(Error::Rejected(text))
                            &&& after.spec_transition() is Ready
                        },
                        Ok((qid, acceptance)) => {
                            &&& outcome == Ok::<Vec<u8>, Error>(acceptance)
                            &&& after.spec_transition() == RouteTransition::<C>::Verified(qid)
                        },
                    }
                },
            _ => {
                &&& outcome == Err::<Vec<u8>, Error>(Error::NoChallenge)
                &&& after.spec_transition() == self.spec_transition()
            },
        }
    }

    /// What comes of a commitment: the identity that was proved, if there is one, becomes a
    /// route.
    pub open spec fn commits(self, after: Self, outcome: Result<Qid, Error>) -> bool {
        &&& after.spec_identity() == self.spec_identity()
        &&& after.spec_secure() == self.spec_secure()
        &&& after.spec_next_handshake_id() == self.spec_next_handshake_id()
        &&& match self.spec_transition() {
            RouteTransition::Verified(qid) => {
                &&& outcome matches Ok(committed)
                &&& committed@ == qid@
                &&& after.spec_transition() is Ready
                &&& after.spec_routes() == if self.spec_routes().contains(qid@) {
                    self.spec_routes()
                } else {
                    self.spec_routes().push(qid@)
                }
            },
            _ => {
                &&& outcome == Err::<Qid, Error>(Error::NoVerifiedRoute)
                &&& after.spec_transition() == self.spec_transition()
                &&& after.spec_routes() == self.spec_routes()
            },
        }
    }

    /// A challenge that is answered well ends in a route: the commitment that follows gives
    /// the identity that was challenged, provided that the answer proves that one; it joins
    /// the routes, and committing again is refused as invalid data and changes nothing.
    pub proof fn law_answered_challenge_is_committed<N, V>(
        self,
        bundle: PeerBundle,
        challenge: N,
        challenging: Self,
        begun: Result<(Qid, Vec<u8>), Error>,
        record: &[u8],
        verify: V,
        verified: Self,
        accepted: Result<Vec<u8>, Error>,
        ready: Self,
        committed: Result<Qid, Error>,
        last: Self,
        again: Result<Qid, Error>,
    ) where
        N: FnOnce(PeerBundle, u32) -> Result<(C, Vec<u8>), String>,
        V: FnOnce(C, &[u8]) -> Result<(Qid, Vec<u8>), String>,

        requires
            challenging.spec_routes() == self.spec_routes(),
            self.challenges(bundle, challenge, challenging, begun),
            begun is Ok,
            challenging.verifies(record, verify, verified, accepted),
            accepted is Ok,
            challenging.proves_the_challenged(verified),
            verified.commits(ready, committed),
            ready.commits(last, again),
        ensures
            committed matches Ok(qid) && qid@ == bundle.qid@ && qid@ == (begun->Ok_0).0@,
            forall|qid: Seq<u8>|
                ready.spec_routes().contains(qid) <==> (#[trigger] self.spec_routes().contains(qid)
                    || qid == bundle.qid@),
            ready.spec_transition() is Ready,
            again == Err::<Qid, Error>(Error::NoVerifiedRoute),
            Error::NoVerifiedRoute.spec_kind() == ErrorKind::InvalidData,
            last.same_routes(ready),
    {
        let before = self.spec_routes();
        let after = ready.spec_routes();
        let added = bundle.qid@;
        assert forall|qid: Seq<u8>|
            after.contains(qid) <==> (#[trigger] before.contains(qid) || qid == added) by {
            if !before.contains(added) {
                assert(after == before.push(added));
                assert(after[before.len() as int] == added);
                if before.contains(qid) {
                    let i = choose|i: int| 0 <= i < before.len() && before[i] == qid;
                    assert(after[i] == qid);
                }
            }
        }
    }

    /// An answer that proves nothing is refused as invalid data and changes no route. With a
    /// challenge in progress it ends the challenge: nothing can be committed and a new
    /// challenge may begin. Without one it leaves the connection as it is, so that a route
    /// that was proved before can still be committed.
    pub proof fn law_refused_answer_changes_no_route<V>(
        self,
        record: &[u8],
        verify: V,
        after: Self,
        outcome: Result<Vec<u8>, Error>,
        last: Self,
        committed: Result<Qid, Error>,
    ) where V: FnOnce(C, &[u8]) -> Result<(Qid, Vec<u8>), String>
        requires
            self.verifies(record, verify, after, outcome),
            after.commits(last, committed),
        ensures
            after.spec_routes() == self.spec_routes(),
            outcome matches Err(error) ==> error.spec_kind() == ErrorKind::InvalidData,
            outcome is Err && self.spec_transition() is Challenging ==> {
                &&& after.spec_transition() is Ready
                &&& committed == Err::<Qid, Error>(Error::NoVerifiedRoute)
                &&& last.same_routes(after)
            },
            !(self.spec_transition() is Challenging) ==> {
                &&& outcome == Err::<Vec<u8>, Error>(Error::NoChallenge)
                &&& after.same_routes(self)
                &&& self.spec_transition() is Verified ==> committed is Ok
            },
    {
    }

    /// Whether, of the calls between the states of a run, one began a challenge in state
    /// `begun`, one took its answer in state `answered`, and none ended the attachment up to
    /// state `now`.
    pub open spec fn attaching(run: Seq<Self>, begun: int, answered: int, now: int) -> bool {
        &&& 0 <= begun < answered < now < run.len()
        &&& run[begun].spec_transition() is Ready
        &&& run[begun + 1].spec_transition() is Challenging
        &&& forall|i: int|
            begun < i <= answered ==> (#[trigger] run[i]).spec_transition() == run[begun
                + 1].spec_transition()
        &&& forall|i: int|
            answered < i <= now ==> (#[trigger] run[i]).spec_transition()
                == run[now].spec_transition()
    }

    /// Nothing can be committed but the identity of the latest challenge, once it has been
    /// answered and until it is committed: in every run, a connection that holds a proved
    /// identity began a challenge and took its answer, and no call has ended the attachment
    /// since. Where the answer proves the identity that was challenged, the two are the same.
    pub proof fn law_proved_was_challenged(
        run: Seq<Self>,
        committed: Seq<Option<Seq<u8>>>,
        now: int,
    )
        requires
            run.len() == committed.len() + 1,
            run[0].spec_transition() is Ready,
            forall|i: int|
                0 <= i < committed.len() ==> run[i].leads_to(run[i + 1], #[trigger] committed[i]),
            0 <= now < run.len(),
            run[now].spec_transition() is Verified,
        ensures
            exists|begun: int, answered: int|
                {
                    &&& #[trigger] Self::attaching(run, begun, answered, now)
                    &&& run[answered].proves_the_challenged(run[answered + 1]) ==> {
                        &&& run[begun + 1].spec_transition() matches RouteTransition::Challenging(
                            _,
                            challenged,
                        )
                        &&& run[now].spec_transition() matches RouteTransition::Verified(proved)
                        &&& proved@ == challenged@
                    }
                },
        decreases now,
    {
        assert(now > 0);
        assert(run[now - 1].leads_to(run[now - 1 + 1], committed[now - 1]));
        if run[now - 1].spec_transition() is Verified {
            Self::law_proved_was_challenged(run, committed, now - 1);
            let (begun, answered) = choose|begun: int, answered: int|
                {
                    &&& #[trigger] Self::attaching(run, begun, answered, now - 1)
                    &&& run[answered].proves_the_challenged(run[answered + 1]) ==> {
                        &&& run[begun + 1].spec_transition() matches RouteTransition::Challenging(
                            _,
                            challenged,
                        )
                        &&& run[now - 1].spec_transition() matches RouteTransition::Verified(proved)
                        &&& proved@ == challenged@
                    }
                };
            assert(Self::attaching(run, begun, answered, now));
        } else {
            let begun = Self::lemma_challenge_began(run, committed, now - 1);
            assert(Self::attaching(run, begun, now - 1, now));
        }
    }

    proof fn lemma_challenge_began(
        run: Seq<Self>,
        committed: Seq<Option<Seq<u8>>>,
        now: int,
    ) -> (begun: int)
        requires
            run.len() == committed.len() + 1,
            run[0].spec_transition() is Ready,
            forall|i: int|
                0 <= i < committed.len() ==> run[i].leads_to(run[i + 1], #[trigger] committed[i]),
            0 <= now < run.len(),
            run[now].spec_transition() is Challenging,
        ensures
            0 <= begun < now,
            run[begun].spec_transition() is Ready,
            run[begun + 1].spec_transition() is Challenging,
            forall|i: int|
                begun < i <= now ==> (#[trigger] run[i]).spec_transition() == run[begun
                    + 1].spec_transition(),
        decreases now,
    {
        assert(now > 0);
        assert(run[now - 1].leads_to(run[now - 1 + 1], committed[now - 1]));
        if run[now - 1].spec_transition() is Challenging {
            Self::lemma_challenge_began(run, committed, now - 1)
        } else {
            now - 1
        }
    }

    /// Checks the answer to the challenge. `verify` gives the identity that it proves and
    /// the record that accepts it. A challenge can be answered once.
    pub fn verify_route<V>(&mut self, record: &[u8], verify: V) -> (outcome: Result<
        Vec<u8>,
        Error,
    >) where V: FnOnce(C, &[u8]) -> Result<(Qid, Vec<u8>), String>
        requires
            forall|challenge: C, record: &[u8]| call_requires(verify, (challenge, record)),
        ensures
            old(self).verifies(record, verify, *final(self), outcome),
            old(self).leads_to(*final(self), None),
            old(self).within_limit() && old(self).proves_the_challenged(*final(self))
                ==> final(self).within_limit(),
    {
        let mut transition = RouteTransition::Ready;
        std::mem::swap(&mut transition, &mut self.transition);
        let challenge = match transition {
            RouteTransition::Challenging(challenge, _) => challenge,
            transition => {
                self.transition = transition;
                return Err(Error::NoChallenge);
            },
        };
        let verified = verify(challenge, record);
        let ghost seen = verified;
        assert(call_ensures(verify, (challenge, record), seen));
        match verified {
            Err(text) => Err(invalid_data(text)),
            Ok((qid, acceptance)) => {
                self.transition = RouteTransition::Verified(qid);
                Ok(acceptance)
            },
        }
    }

    /// Makes the identity that was proved a route of the connection. Callers commit only
    /// after the acceptance record is queued.
    pub fn commit_route(&mut self) -> (outcome: Result<Qid, Error>)
        requires
            old(self).well_formed(),
        ensures
            final(self).well_formed(),
            old(self).commits(*final(self), outcome),
            old(self).leads_to(
                *final(self),
                match outcome {
                    Ok(committed) => Some(committed@),
                    Err(_) => None,
                },
            ),
            old(self).within_limit() ==> final(self).within_limit(),
    {
        let mut transition = RouteTransition::Ready;
        std::mem::swap(&mut transition, &mut self.transition);
        let qid = match transition {
            RouteTransition::Verified(qid) => qid,
            transition => {
                self.transition = transition;
                return Err(Error::NoVerifiedRoute);
            },
        };
        if position(&self.routes, &qid).is_none() {
            self.routes.push(qid.clone());
            assert(self.spec_routes() =~= old(self).spec_routes().push(qid@));
        }
        Ok(qid)
    }

    /// The identities that the connection has proved.
    pub fn routes(&self) -> (routes: Vec<Qid>)
        ensures
            qid_views(routes@) == self.spec_routes(),
    {
        let mut routes: Vec<Qid> = Vec::new();
        let mut i: usize = 0;
        while i < self.routes.len()
            invariant
                i <= self.routes.len(),
                qid_views(routes@) == self.spec_routes().take(i as int),
            decreases self.routes.len() - i,
        {
            let ghost before = routes@;
            routes.push(self.routes[i].clone());
            assert(qid_views(routes@) =~= qid_views(before).push(self.spec_routes()[i as int]));
            assert(self.spec_routes().take(i + 1) =~= self.spec_routes().take(i as int).push(
                self.spec_routes()[i as int],
            ));
            i += 1;
        }
        assert(self.spec_routes().take(i as int) =~= self.spec_routes());
        routes
    }
}

/// A packet was refused for this reason.
pub open spec fn action_failed(outcome: Result<RouterAction, Error>, error: Error) -> bool {
    outcome == Err::<RouterAction, Error>(error)
}

/// A challenge was refused for this reason.
pub open spec fn challenge_failed(outcome: Result<(Qid, Vec<u8>), Error>, error: Error) -> bool {
    outcome == Err::<(Qid, Vec<u8>), Error>(error)
}

} // verus!
