//! Secure packets: a frame that holds a kind, a payload and the tag that authenticates
//! everything in front of it. Each direction counts its packets, and the count is the
//! nonce of the tag.
use vstd::prelude::*;

use crate::error::{Error, ErrorKind};
use crate::protocol::frame::Frame;
use crate::protocol::wire::{
    le32, le32_round_trip, le32_value, push_le32, read_le32, PacketKind, AUTH_SIZE,
    FRAME_HEADER_SIZE, MAX_FRAME_SIZE, MAX_RECORD_SIZE, PACKET_HEADER_SIZE, PACKET_OVERHEAD,
};
use crate::qid::copy_bytes;

verus! {

/// The key of one direction of a transport.
pub struct SessionKey(pub Vec<u8>);

/// The part of a packet's frame that its tag authenticates: all of it but the tag.
pub open spec fn authenticated(kind: PacketKind, payload: Seq<u8>) -> Seq<u8> {
    le32(PACKET_OVERHEAD + payload.len()) + seq![kind.spec_code()] + payload
}

/// The frame of a packet.
pub open spec fn packet(kind: PacketKind, payload: Seq<u8>, tag: Seq<u8>) -> Seq<u8> {
    authenticated(kind, payload) + tag
}

/// The sending side of one direction.
pub struct SecureSender {
    key: SessionKey,
    counter: u64,
}

impl SecureSender {
    /// The key that tags are made with.
    pub closed spec fn spec_key(self) -> SessionKey {
        self.key
    }

    /// The number of the next packet.
    pub closed spec fn spec_counter(self) -> u64 {
        self.counter
    }

    /// A sender that gives its next packet this number.
    pub fn new(key: SessionKey, counter: u64) -> (sender: Self)
        ensures
            sender.spec_key() == key,
            sender.spec_counter() == counter,
    {
        SecureSender { key, counter }
    }

    /// What sealing a packet comes to: the state that the sender is left in, and the frame
    /// that stands in place of another.
    pub open spec fn seals<T>(
        self,
        kind: PacketKind,
        payload: Seq<u8>,
        tag: T,
        after: Self,
        old_frame: Seq<u8>,
        frame: Seq<u8>,
        outcome: Result<(), Error>,
    ) -> bool where T: FnOnce(&SessionKey, u64, &[u8]) -> [u8; AUTH_SIZE] {
        &&& after.spec_key() == self.spec_key()
        &&& if payload.len() > MAX_RECORD_SIZE {
            &&& outcome == Err::<(), Error>(Error::PayloadTooLarge)
            &&& after.spec_counter() == self.spec_counter()
            &&& frame == old_frame
        } else if self.spec_counter() == u64::MAX {
            &&& outcome == Err::<(), Error>(Error::CounterExhausted)
            &&& after.spec_counter() == self.spec_counter()
            &&& frame == old_frame
        } else {
            &&& outcome is Ok
            &&& after.spec_counter() == self.spec_counter() + 1
            &&& exists|bytes: &[u8], made: [u8; AUTH_SIZE]|
                {
                    &&& bytes@ == authenticated(kind, payload)
                    &&& #[trigger] call_ensures(
                        tag,
                        (&self.spec_key(), self.spec_counter(), bytes),
                        made,
                    )
                    &&& frame == packet(kind, payload, made@)
                }
        }
    }

    /// Writes a packet's frame into `frame`, in place of what is there. `tag` makes the
    /// tag of the bytes that it is given, with the key and the packet's number.
    ///
    /// A payload that is too large is refused before a number is used, so the caller may
    /// go on with a smaller one.
    pub fn seal<T>(
        &mut self,
        frame: &mut Vec<u8>,
        kind: PacketKind,
        payload: &[u8],
        tag: T,
    ) -> (outcome: Result<(), Error>) where T: FnOnce(&SessionKey, u64, &[u8]) -> [u8; AUTH_SIZE]
        requires
            forall|key: &SessionKey, counter: u64, bytes: &[u8]|
                call_requires(tag, (key, counter, bytes)),
        ensures
            old(self).seals(
                kind,
                payload@,
                tag,
                *final(self),
                old(frame)@,
                final(frame)@,
                outcome,
            ),
    {
        if payload.len() > MAX_FRAME_SIZE - PACKET_OVERHEAD {
            return Err(Error::PayloadTooLarge);
        }
        let length: usize = PACKET_OVERHEAD + payload.len();
        let next: u64 = match self.counter.checked_add(1) {
            Some(next) => next,
            None => return Err(Error::CounterExhausted),
        };
        frame.clear();
        push_le32(frame, length as u32);
        frame.push(kind.code());
        frame.extend_from_slice(payload);
        assert(frame@ =~= authenticated(kind, payload@));
        let bytes = frame.as_slice();
        let made = tag(&self.key, self.counter, bytes);
        assert(call_ensures(tag, (&old(self).spec_key(), old(self).spec_counter(), bytes), made));
        frame.extend_from_slice(made.as_slice());
        assert(frame@ =~= packet(kind, payload@, made@));
        self.counter = next;
        Ok(())
    }
}

/// A frame taken apart as a packet: its kind, its payload and its tag, or the reason why
/// it is none.
pub open spec fn unpacked(frame: Seq<u8>) -> Result<(PacketKind, Seq<u8>, Seq<u8>), Error> {
    if frame.len() < FRAME_HEADER_SIZE + PACKET_OVERHEAD {
        Err(Error::InvalidFrame)
    } else if le32_value(frame) != frame.len() - FRAME_HEADER_SIZE {
        Err(Error::InvalidFrameLength)
    } else {
        match PacketKind::spec_from_code(frame[FRAME_HEADER_SIZE as int]) {
            Some(kind) => Ok(
                (
                    kind,
                    frame.subrange(PACKET_HEADER_SIZE as int, frame.len() - AUTH_SIZE),
                    frame.skip(frame.len() - AUTH_SIZE),
                ),
            ),
            None => Err(Error::UnknownPacketKind),
        }
    }
}

/// The receiving side of one direction.
pub struct SecureReceiver {
    key: SessionKey,
    counter: Option<u64>,
}

/// What opening a frame comes to: the state that the receiver is left in, and the packet
/// or the reason why it is refused. The first reason that applies is given: the direction
/// has failed, its numbers are used up, the frame is no packet, the tag is wrong.
pub open spec fn opens<V>(
    before: SecureReceiver,
    frame: Seq<u8>,
    verify: V,
    after: SecureReceiver,
    outcome: Result<(PacketKind, Vec<u8>), Error>,
) -> bool where V: FnOnce(&SessionKey, u64, &[u8], &[u8]) -> bool {
    &&& after.spec_key() == before.spec_key()
    &&& after.spec_counter() == match outcome {
        Ok(_) => Some((before.spec_counter()->0 + 1) as u64),
        Err(_) => None,
    }
    &&& match before.spec_counter() {
        None => open_failed(outcome, Error::ReceiverFailed),
        Some(counter) => if counter == u64::MAX {
            open_failed(outcome, Error::CounterExhausted)
        } else {
            match unpacked(frame) {
                Err(error) => open_failed(outcome, error),
                Ok((kind, payload, tag)) => exists|bytes: &[u8], tail: &[u8], valid: bool|
                    {
                        &&& bytes@ == frame.take(frame.len() - AUTH_SIZE)
                        &&& tail@ == tag
                        &&& #[trigger] call_ensures(
                            verify,
                            (&before.spec_key(), counter, bytes, tail),
                            valid,
                        )
                        &&& valid ==> (outcome matches Ok(opened) && opened.0 == kind
                            && opened.1@ == payload)
                        &&& !valid ==> open_failed(outcome, Error::TagMismatch)
                    },
            }
        },
    }
}

/// A frame was refused for this reason.
pub open spec fn open_failed(outcome: Result<(PacketKind, Vec<u8>), Error>, error: Error) -> bool {
    outcome == Err::<(PacketKind, Vec<u8>), Error>(error)
}

impl SecureReceiver {
    /// The key that tags are checked with.
    pub closed spec fn spec_key(self) -> SessionKey {
        self.key
    }

    /// The number of the next packet, or nothing once a packet has been refused.
    pub closed spec fn spec_counter(self) -> Option<u64> {
        self.counter
    }

    /// A receiver that expects this number of its next packet.
    pub fn new(key: SessionKey, counter: u64) -> (receiver: Self)
        ensures
            receiver.spec_key() == key,
            receiver.spec_counter() == Some(counter),
    {
        SecureReceiver { key, counter: Some(counter) }
    }

    /// The kind and the payload of a packet. `verify` tells whether a tag authenticates
    /// the bytes that it is given, with the key and the packet's number.
    ///
    /// Any packet that is refused ends the direction: the counters of the two sides can
    /// no longer be known to agree.
    pub fn open<V>(&mut self, frame: Frame, verify: V) -> (outcome: Result<
        (PacketKind, Vec<u8>),
        Error,
    >) where V: FnOnce(&SessionKey, u64, &[u8], &[u8]) -> bool
        requires
            forall|key: &SessionKey, counter: u64, bytes: &[u8], tag: &[u8]|
                call_requires(verify, (key, counter, bytes, tag)),
        ensures
            opens(*old(self), frame@, verify, *final(self), outcome),
    {
        let counter: u64 = match self.counter.take() {
            Some(counter) => counter,
            None => return Err(Error::ReceiverFailed),
        };
        let next: u64 = match counter.checked_add(1) {
            Some(next) => next,
            None => return Err(Error::CounterExhausted),
        };
        let packet = frame.0.as_slice();
        if packet.len() < FRAME_HEADER_SIZE + PACKET_OVERHEAD {
            return Err(Error::InvalidFrame);
        }
        let length: usize = read_le32(packet) as usize;
        if length != packet.len() - FRAME_HEADER_SIZE {
            return Err(Error::InvalidFrameLength);
        }
        let kind = match PacketKind::from_code(packet[FRAME_HEADER_SIZE]) {
            Some(kind) => kind,
            None => return Err(Error::UnknownPacketKind),
        };
        let tag_at: usize = packet.len() - AUTH_SIZE;
        let bytes = &packet[0..tag_at];
        let tail = &packet[tag_at..packet.len()];
        let valid = verify(&self.key, counter, bytes, tail);
        proof {
            assert(bytes@ =~= frame@.take(frame@.len() - AUTH_SIZE));
            assert(tail@ =~= frame@.skip(frame@.len() - AUTH_SIZE));
            assert(call_ensures(verify, (&old(self).spec_key(), counter, bytes, tail), valid));
        }
        if !valid {
            return Err(Error::TagMismatch);
        }
        let payload = copy_bytes(&packet[PACKET_HEADER_SIZE..tag_at]);
        self.counter = Some(next);
        Ok((kind, payload))
    }
}

/// A sealed packet, taken apart, is the packet that was sealed; and its tag covers the
/// length, the kind and the whole payload, so no two packets share what the tag covers.
pub proof fn law_unpacked_is_packed(
    kind: PacketKind,
    payload: Seq<u8>,
    tag: Seq<u8>,
    other_kind: PacketKind,
    other_payload: Seq<u8>,
)
    requires
        payload.len() <= MAX_RECORD_SIZE,
        other_payload.len() <= MAX_RECORD_SIZE,
        tag.len() == AUTH_SIZE,
    ensures
        unpacked(packet(kind, payload, tag)) == Ok::<_, Error>((kind, payload, tag)),
        packet(kind, payload, tag).take(packet(kind, payload, tag).len() - AUTH_SIZE)
            == authenticated(kind, payload),
        authenticated(kind, payload) == authenticated(other_kind, other_payload) ==> kind
            == other_kind && payload == other_payload,
{
    let frame = packet(kind, payload, tag);
    let n = PACKET_OVERHEAD + payload.len();
    le32_round_trip(n, Seq::empty());
    assert(forall|i: int| 0 <= i < 4 ==> frame[i] == le32(n)[i]);
    assert(frame[4] == kind.spec_code());
    assert(frame.subrange(PACKET_HEADER_SIZE as int, frame.len() - AUTH_SIZE) =~= payload);
    assert(frame.skip(frame.len() - AUTH_SIZE) =~= tag);
    assert(frame.take(frame.len() - AUTH_SIZE) =~= authenticated(kind, payload));
    let a = authenticated(kind, payload);
    let b = authenticated(other_kind, other_payload);
    if a == b {
        assert(a[4] == kind.spec_code() && b[4] == other_kind.spec_code());
        assert(a.skip(5) =~= payload);
        assert(b.skip(5) =~= other_payload);
    }
}

/// The packets that a direction delivers of the frames that come, when a tag is good
/// exactly if it is the one that `mac` makes with the key, the packet's number and the
/// bytes in front of it.
pub open spec fn delivered(
    mac: spec_fn(SessionKey, u64, Seq<u8>) -> Seq<u8>,
    key: SessionKey,
    counter: Option<u64>,
    frames: Seq<Seq<u8>>,
) -> Seq<(PacketKind, Seq<u8>)>
    decreases frames.len(),
{
    if frames.len() == 0 {
        Seq::empty()
    } else {
        match counter {
            Some(number) if number < u64::MAX => match unpacked(frames[0]) {
                Ok((kind, payload, tag)) if tag == mac(
                    key,
                    number,
                    frames[0].take(frames[0].len() - AUTH_SIZE),
                ) => seq![(kind, payload)] + delivered(
                    mac,
                    key,
                    Some((number + 1) as u64),
                    frames.skip(1),
                ),
                _ => delivered(mac, key, None, frames.skip(1)),
            },
            _ => delivered(mac, key, None, frames.skip(1)),
        }
    }
}

/// The frames of packets that are sealed one after the other.
pub open spec fn sealed(
    mac: spec_fn(SessionKey, u64, Seq<u8>) -> Seq<u8>,
    key: SessionKey,
    counter: int,
    packets: Seq<(PacketKind, Seq<u8>)>,
) -> Seq<Seq<u8>> {
    Seq::new(
        packets.len(),
        |i: int|
            packet(
                packets[i].0,
                packets[i].1,
                mac(key, (counter + i) as u64, authenticated(packets[i].0, packets[i].1)),
            ),
    )
}

/// A direction that has failed delivers nothing more, whatever comes.
pub proof fn law_failed_direction_stays_failed(
    mac: spec_fn(SessionKey, u64, Seq<u8>) -> Seq<u8>,
    key: SessionKey,
    frames: Seq<Seq<u8>>,
)
    ensures
        delivered(mac, key, None, frames) == Seq::<(PacketKind, Seq<u8>)>::empty(),
    decreases frames.len(),
{
    if frames.len() > 0 {
        law_failed_direction_stays_failed(mac, key, frames.skip(1));
    }
}

/// What one side seals, the other side delivers, each packet once and in order, when both
/// start from the same key and number. Frames that follow a refused one are not
/// delivered, however good they are.
pub proof fn law_sealed_is_delivered(
    mac: spec_fn(SessionKey, u64, Seq<u8>) -> Seq<u8>,
    key: SessionKey,
    counter: u64,
    packets: Seq<(PacketKind, Seq<u8>)>,
    rest: Seq<Seq<u8>>,
)
    requires
        forall|key: SessionKey, counter: u64, bytes: Seq<u8>|
            (#[trigger] mac(key, counter, bytes)).len() == AUTH_SIZE,
        forall|i: int|
            0 <= i < packets.len() ==> (#[trigger] packets[i]).1.len() <= MAX_RECORD_SIZE,
        counter + packets.len() <= u64::MAX,
    ensures
        delivered(mac, key, Some(counter), sealed(mac, key, counter as int, packets) + rest)
            == packets + delivered(mac, key, Some((counter + packets.len()) as u64), rest),
        rest.len() > 0 && !(unpacked(rest[0]) matches Ok((kind, payload, tag)) && tag == mac(
            key,
            (counter + packets.len()) as u64,
            rest[0].take(rest[0].len() - AUTH_SIZE),
        )) ==> delivered(mac, key, Some(counter), sealed(mac, key, counter as int, packets) + rest)
            == packets,
    decreases packets.len(),
{
    let frames = sealed(mac, key, counter as int, packets) + rest;
    if packets.len() == 0 {
        assert(frames =~= rest);
        assert(packets + delivered(mac, key, Some(counter), rest) =~= delivered(
            mac,
            key,
            Some(counter),
            rest,
        ));
        if rest.len() > 0 {
            law_failed_direction_stays_failed(mac, key, rest.skip(1));
            assert(packets =~= Seq::empty());
        }
    } else {
        let (kind, payload) = packets[0];
        let tag = mac(key, counter, authenticated(kind, payload));
        assert(packets[0].1.len() <= MAX_RECORD_SIZE);
        law_unpacked_is_packed(kind, payload, tag, kind, payload);
        assert(frames[0] == packet(kind, payload, tag));
        let more = packets.skip(1);
        assert(frames.skip(1) =~= sealed(mac, key, counter + 1, more) + rest);
        assert forall|i: int| 0 <= i < more.len() implies (#[trigger] more[i]).1.len()
            <= MAX_RECORD_SIZE by {
            assert(more[i] == packets[i + 1]);
        }
        law_sealed_is_delivered(mac, key, (counter + 1) as u64, more, rest);
        let tail = delivered(mac, key, Some((counter + packets.len()) as u64), rest);
        assert(seq![packets[0]] + (more + tail) =~= packets + tail);
        assert(seq![packets[0]] + more =~= packets);
    }
}

/// Whether tags are checked by making them: one is good exactly if it is the one that `mac`
/// makes.
pub open spec fn checks_by<V>(verify: V, mac: spec_fn(SessionKey, u64, Seq<u8>) -> Seq<u8>) -> bool
    where V: FnOnce(&SessionKey, u64, &[u8], &[u8]) -> bool
{
    forall|key: &SessionKey, counter: u64, bytes: &[u8], tag: &[u8], valid: bool| #[trigger]
        call_ensures(verify, (key, counter, bytes, tag), valid) ==> valid == (tag@ == mac(
            *key,
            counter,
            bytes@,
        ))
}

/// Whether tags are made by `mac`.
pub open spec fn makes_by<T>(tag: T, mac: spec_fn(SessionKey, u64, Seq<u8>) -> Seq<u8>) -> bool
    where T: FnOnce(&SessionKey, u64, &[u8]) -> [u8; AUTH_SIZE]
{
    forall|key: &SessionKey, counter: u64, bytes: &[u8], made: [u8; AUTH_SIZE]| #[trigger]
        call_ensures(tag, (key, counter, bytes), made) ==> made@ == mac(*key, counter, bytes@)
}

/// Sealing packets one after the other gives the frames of those packets: the frame of one
/// more follows those that were sealed from some number on, where it has the next number.
pub proof fn law_seal_gives_the_next_frame<T>(
    mac: spec_fn(SessionKey, u64, Seq<u8>) -> Seq<u8>,
    tag: T,
    first: u64,
    packets: Seq<(PacketKind, Seq<u8>)>,
    before: SecureSender,
    kind: PacketKind,
    payload: Seq<u8>,
    after: SecureSender,
    old_frame: Seq<u8>,
    frame: Seq<u8>,
) where T: FnOnce(&SessionKey, u64, &[u8]) -> [u8; AUTH_SIZE]
    requires
        makes_by(tag, mac),
        before.spec_counter() == first + packets.len(),
        before.seals(kind, payload, tag, after, old_frame, frame, Ok(())),
    ensures
        after.spec_counter() == first + packets.len() + 1,
        sealed(mac, after.spec_key(), first as int, packets.push((kind, payload))) == sealed(
            mac,
            before.spec_key(),
            first as int,
            packets,
        ).push(frame),
{
    let more = packets.push((kind, payload));
    assert(forall|i: int| 0 <= i < packets.len() ==> more[i] == packets[i]);
    assert(more[packets.len() as int] == (kind, payload));
    assert(sealed(mac, after.spec_key(), first as int, more) =~= sealed(
        mac,
        before.spec_key(),
        first as int,
        packets,
    ).push(frame));
}

/// A direction delivers what opening its frames one after the other gives: the packet of
/// each frame that is opened, and nothing of one that is refused.
pub proof fn law_opened_is_delivered<V>(
    mac: spec_fn(SessionKey, u64, Seq<u8>) -> Seq<u8>,
    verify: V,
    before: SecureReceiver,
    frame: Seq<u8>,
    after: SecureReceiver,
    outcome: Result<(PacketKind, Vec<u8>), Error>,
    rest: Seq<Seq<u8>>,
) where V: FnOnce(&SessionKey, u64, &[u8], &[u8]) -> bool
    requires
        checks_by(verify, mac),
        opens(before, frame, verify, after, outcome),
    ensures
        delivered(mac, before.spec_key(), before.spec_counter(), seq![frame] + rest) == match outcome {
            Ok((kind, payload)) => seq![(kind, payload@)],
            Err(_) => Seq::empty(),
        } + delivered(mac, after.spec_key(), after.spec_counter(), rest),
{
    let frames = seq![frame] + rest;
    assert(frames[0] == frame);
    assert(frames.skip(1) =~= rest);
    let tail = delivered(mac, after.spec_key(), after.spec_counter(), rest);
    assert(Seq::<(PacketKind, Seq<u8>)>::empty() + tail =~= tail);
}

/// A packet is opened only in its turn: one that was sealed with another number than the
/// receiver expects (it was sent again, or overtook another) is refused, as not permitted,
/// and ends the direction. The tags that the two numbers give have to differ.
pub proof fn law_packet_out_of_turn_is_refused<V>(
    mac: spec_fn(SessionKey, u64, Seq<u8>) -> Seq<u8>,
    verify: V,
    before: SecureReceiver,
    kind: PacketKind,
    payload: Seq<u8>,
    number: u64,
    after: SecureReceiver,
    outcome: Result<(PacketKind, Vec<u8>), Error>,
) where V: FnOnce(&SessionKey, u64, &[u8], &[u8]) -> bool
    requires
        checks_by(verify, mac),
        payload.len() <= MAX_RECORD_SIZE,
        mac(before.spec_key(), number, authenticated(kind, payload)).len() == AUTH_SIZE,
        before.spec_counter() matches Some(expected) && expected < u64::MAX && mac(
            before.spec_key(),
            expected,
            authenticated(kind, payload),
        ) != mac(before.spec_key(), number, authenticated(kind, payload)),
        opens(
            before,
            packet(kind, payload, mac(before.spec_key(), number, authenticated(kind, payload))),
            verify,
            after,
            outcome,
        ),
    ensures
        outcome == Err::<(PacketKind, Vec<u8>), Error>(Error::TagMismatch),
        Error::TagMismatch.spec_kind() == ErrorKind::PermissionDenied,
        after.spec_counter() is None,
{
    let tag = mac(before.spec_key(), number, authenticated(kind, payload));
    law_unpacked_is_packed(kind, payload, tag, kind, payload);
}

/// Of sealed packets that come in any order, left out or repeated, a direction delivers
/// those that come in their turn, up to the first that does not, and nothing from there
/// on. `order` tells which packet each frame is; `turns` of them come in their turn. The
/// tags that different numbers give have to differ.
pub proof fn law_delivered_in_turn(
    mac: spec_fn(SessionKey, u64, Seq<u8>) -> Seq<u8>,
    key: SessionKey,
    counter: u64,
    packets: Seq<(PacketKind, Seq<u8>)>,
    order: Seq<int>,
    turns: int,
)
    requires
        forall|key: SessionKey, counter: u64, bytes: Seq<u8>|
            (#[trigger] mac(key, counter, bytes)).len() == AUTH_SIZE,
        forall|one: u64, other: u64, bytes: Seq<u8>|
            one != other ==> #[trigger] mac(key, one, bytes) != #[trigger] mac(key, other, bytes),
        forall|i: int|
            0 <= i < packets.len() ==> (#[trigger] packets[i]).1.len() <= MAX_RECORD_SIZE,
        counter + packets.len() <= u64::MAX,
        forall|i: int| 0 <= i < order.len() ==> 0 <= #[trigger] order[i] < packets.len(),
        0 <= turns <= order.len(),
        forall|i: int| 0 <= i < turns ==> #[trigger] order[i] == i,
        turns < order.len() ==> order[turns] != turns,
    ensures
        delivered(
            mac,
            key,
            Some(counter),
            order.map_values(|at: int| sealed(mac, key, counter as int, packets)[at]),
        ) == packets.take(turns),
{
    let all = sealed(mac, key, counter as int, packets);
    let frames = order.map_values(|at: int| all[at]);
    if turns > 0 {
        assert(order[turns - 1] == turns - 1);
    }
    let first = packets.take(turns);
    let rest = frames.skip(turns);
    assert forall|i: int| 0 <= i < first.len() implies (#[trigger] first[i]).1.len()
        <= MAX_RECORD_SIZE by {
        assert(first[i] == packets[i]);
    }
    assert(frames =~= sealed(mac, key, counter as int, first) + rest);
    law_sealed_is_delivered(mac, key, counter, first, rest);
    if turns < order.len() {
        let at = order[turns];
        let (kind, payload) = packets[at];
        let tag = mac(key, (counter + at) as u64, authenticated(kind, payload));
        assert(rest[0] == packet(kind, payload, tag));
        assert(packets[at].1.len() <= MAX_RECORD_SIZE);
        law_unpacked_is_packed(kind, payload, tag, kind, payload);
        assert(mac(key, (counter + turns) as u64, authenticated(kind, payload)) != tag);
    } else {
        assert(rest =~= Seq::empty());
        assert(first + delivered(mac, key, Some((counter + turns) as u64), rest) =~= first);
    }
}

} // verus!
