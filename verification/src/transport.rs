//! One end of a connection to the router: reading whole frames in bounded time, writing
//! packets that are never followed once one was cut short, and the client's side of the
//! set-up.
use vstd::prelude::*;

use crate::error::{Error, ErrorKind};
use crate::protocol::frame::{joined, progress, Frame, FrameDecoder, Progress};
use crate::protocol::handshake::{
    checked_handshake, Agreed, ClientHandshake, Decoded,
};
use crate::protocol::record::{HandshakeRecord, RouteHeader};
use crate::protocol::secure::{
    authenticated, checks_by, law_unpacked_is_packed, makes_by, opens, packet, SecureReceiver, SecureSender, SessionKey,
};
use crate::protocol::wire::{PacketKind, AUTH_SIZE, FRAME_HEADER_SIZE, MAX_RECORD_SIZE};

verus! {

/// How many seconds a client waits for the router.
pub const CONNECT_TIMEOUT: u64 = 10;

/// What one read of the connection comes to.
#[derive(Debug)]
pub enum ReadOutcome {
    /// A frame is whole.
    Frame(Frame),
    /// The connection ended between two frames.
    Ended,
    /// The connection is to be read again.
    Unfinished,
}

/// The reading of one frame, with the time that it may take once its first byte is there.
/// Times are nanoseconds of a clock that never goes back.
#[derive(Clone, Copy, Debug)]
pub struct FrameRead {
    assembly: Option<u64>,
    deadline: Option<u64>,
}

/// The deadline of a frame whose first byte came at `now`.
pub open spec fn deadline_from(assembly: Option<u64>, now: int) -> Option<int> {
    match assembly {
        Some(assembly) => Some(now + assembly),
        None => None,
    }
}

impl FrameRead {
    /// How long the assembly of the frame may take.
    pub closed spec fn spec_assembly(self) -> Option<u64> {
        self.assembly
    }

    /// When the frame has to be whole.
    pub closed spec fn spec_deadline(self) -> Option<int> {
        match self.deadline {
            Some(deadline) => Some(deadline as int),
            None => None,
        }
    }

    /// The deadline that the reading of a frame begins with.
    pub open spec fn first_deadline(received: Seq<u8>, assembly: Option<u64>, now: int) -> Option<
        int,
    > {
        if received.len() == 0 {
            None
        } else {
            deadline_from(assembly, now)
        }
    }

    /// Begins to read a frame, some bytes of which an earlier reading may have left in the
    /// decoder.
    pub fn start(decoder: &FrameDecoder, assembly: Option<u64>, now: u64) -> (read: Self)
        requires
            decoder.well_formed(),
            assembly matches Some(assembly) ==> now + assembly <= u64::MAX,
        ensures
            read.spec_assembly() == assembly,
            read.spec_deadline() == Self::first_deadline(
                decoder.received(),
                assembly,
                now as int,
            ),
            read.spec_deadline() == if decoder.received().len() == 0 {
                None
            } else {
                deadline_from(assembly, now as int)
            },
    {
        let deadline: Option<u64> = match assembly {
            Some(assembly) => if decoder.is_partial() {
                Some(now + assembly)
            } else {
                None
            },
            None => None,
        };
        FrameRead { assembly, deadline }
    }

    /// When the next read has to end, if ever.
    pub fn deadline(&self) -> (deadline: Option<u64>)
        ensures
            deadline is Some <==> self.spec_deadline() is Some,
            deadline matches Some(deadline) ==> self.spec_deadline() == Some(deadline as int),
    {
        self.deadline
    }

    /// What comes of a read that ended at `now`: nothing is the end of the connection, and
    /// bytes are taken as delivered.
    pub open spec fn reads(
        self,
        decoder: FrameDecoder,
        read: usize,
        now: u64,
        after: Self,
        decoder_after: FrameDecoder,
        outcome: Result<ReadOutcome, Error>,
    ) -> bool {
        &&& after.spec_assembly() == self.spec_assembly()
        &&& after.spec_deadline() == if outcome matches Ok(ReadOutcome::Unfinished) {
            next_deadline(self.spec_deadline(), self.spec_assembly(), now as int)
        } else {
            self.spec_deadline()
        }
        &&& if read == 0 {
            &&& decoder_after.received() == decoder.received()
            &&& outcome == if decoder.received().len() == 0 {
                Ok::<ReadOutcome, Error>(ReadOutcome::Ended)
            } else {
                Err(Error::EndedWithinFrame)
            }
        } else {
            exists|advanced: Result<Option<Frame>, Error>|
                {
                    &&& #[trigger] decoder.advances(read, decoder_after, advanced)
                    &&& match advanced {
                        Err(error) => outcome == Err::<ReadOutcome, Error>(error),
                        Ok(Some(frame)) => outcome == Ok::<ReadOutcome, Error>(
                            ReadOutcome::Frame(frame),
                        ),
                        Ok(None) => outcome == Ok::<ReadOutcome, Error>(ReadOutcome::Unfinished),
                    }
                }
        }
    }

    /// Takes note that a read put `read` bytes into the decoder's room and ended at `now`.
    pub fn received(&mut self, decoder: &mut FrameDecoder, read: usize, now: u64) -> (outcome:
        Result<ReadOutcome, Error>)
        requires
            old(decoder).well_formed(),
            old(self).spec_assembly() matches Some(assembly) ==> now + assembly <= u64::MAX,
        ensures
            old(self).reads(*old(decoder), read, now, *final(self), *final(decoder), outcome),
            final(decoder).well_formed(),
            final(self).spec_assembly() == old(self).spec_assembly(),
            final(self).spec_deadline() == if outcome matches Ok(ReadOutcome::Unfinished) {
                next_deadline(old(self).spec_deadline(), old(self).spec_assembly(), now as int)
            } else {
                old(self).spec_deadline()
            },
            read == 0 ==> {
                &&& final(decoder).received() == old(decoder).received()
                &&& old(decoder).received().len() == 0 ==> outcome == Ok::<ReadOutcome, Error>(
                    ReadOutcome::Ended,
                )
                &&& old(decoder).received().len() > 0 ==> outcome == Err::<ReadOutcome, Error>(
                    Error::EndedWithinFrame,
                )
            },
            read > old(decoder).room().len() ==> {
                &&& outcome == Err::<ReadOutcome, Error>(Error::BeyondBuffer)
                &&& final(decoder).received() == old(decoder).received()
            },
            0 < read <= old(decoder).room().len() ==> {
                let received = old(decoder).received() + old(decoder).room().take(read as int);
                match progress(received) {
                    Progress::TooLarge => {
                        &&& outcome == Err::<ReadOutcome, Error>(Error::FrameTooLarge)
                        &&& final(decoder).received() == received
                    },
                    Progress::Whole => {
                        &&& outcome matches Ok(ReadOutcome::Frame(frame)) && frame@ == received
                        &&& final(decoder).received() == Seq::<u8>::empty()
                    },
                    Progress::Partial => {
                        &&& outcome matches Ok(ReadOutcome::Unfinished)
                        &&& final(decoder).received() == received
                    },
                }
            },
    {
        if read == 0 {
            return match decoder.finish() {
                Ok(_) => Ok(ReadOutcome::Ended),
                Err(error) => Err(error),
            };
        }
        let advanced = decoder.advance(read);
        let ghost seen = advanced;
        assert(old(decoder).advances(read, *decoder, seen));
        match advanced {
            Err(error) => Err(error),
            Ok(Some(frame)) => Ok(ReadOutcome::Frame(frame)),
            Ok(None) => {
                if self.deadline.is_none() {
                    self.deadline = match self.assembly {
                        Some(assembly) => Some(now + assembly),
                        None => None,
                    };
                }
                Ok(ReadOutcome::Unfinished)
            },
        }
    }
}

/// The deadline after a read that left the frame unfinished.
pub open spec fn next_deadline(deadline: Option<int>, assembly: Option<u64>, now: int) -> Option<
    int,
> {
    if deadline is None {
        deadline_from(assembly, now)
    } else {
        deadline
    }
}

/// The deadline after reads that ended at these times and left the frame unfinished.
pub open spec fn deadline_after(
    deadline: Option<int>,
    assembly: Option<u64>,
    times: Seq<int>,
) -> Option<int>
    decreases times.len(),
{
    if times.len() == 0 {
        deadline
    } else {
        deadline_after(next_deadline(deadline, assembly, times[0]), assembly, times.skip(1))
    }
}

/// The deadline of a frame is set by its first byte, and nothing that comes later moves
/// it; while no byte came there is none.
pub proof fn law_first_byte_sets_the_deadline(assembly: u64, times: Seq<int>)
    requires
        times.len() > 0,
    ensures
        deadline_after(None, Some(assembly), Seq::<int>::empty()) == None::<int>,
        deadline_after(None, Some(assembly), times) == Some(times[0] + assembly),
{
    lemma_deadline_stays(times[0] + assembly, assembly, times.skip(1));
}

proof fn lemma_deadline_stays(deadline: int, assembly: u64, times: Seq<int>)
    ensures
        deadline_after(Some(deadline), Some(assembly), times) == Some(deadline),
    decreases times.len(),
{
    if times.len() > 0 {
        lemma_deadline_stays(deadline, assembly, times.skip(1));
    }
}

/// The writing half of a connection. A write that was begun and not ended, because it
/// failed or was given up, leaves part of a frame behind, and nothing may follow it.
pub struct SocketWriter<W> {
    inner: W,
    writable: bool,
}

impl<W> SocketWriter<W> {
    /// What is written to.
    pub closed spec fn spec_inner(self) -> W {
        self.inner
    }

    /// Whether a write may begin.
    pub closed spec fn spec_writable(self) -> bool {
        self.writable
    }

    /// A writer that has written nothing.
    pub fn new(inner: W) -> (writer: Self)
        ensures
            writer.spec_inner() == inner,
            writer.spec_writable(),
    {
        SocketWriter { inner, writable: true }
    }

    /// What is written to.
    pub fn inner(&mut self) -> (inner: &mut W)
        ensures
            *inner == old(self).spec_inner(),
            final(self).spec_inner() == *final(inner),
            final(self).spec_writable() == old(self).spec_writable(),
    {
        &mut self.inner
    }

    /// What beginning a write comes to.
    pub open spec fn begins(self) -> Result<(), Error> {
        if self.spec_writable() {
            Ok(())
        } else {
            Err(Error::WriterBroken)
        }
    }

    /// Begins a write.
    pub fn begin(&mut self) -> (outcome: Result<(), Error>)
        ensures
            final(self).spec_inner() == old(self).spec_inner(),
            !final(self).spec_writable(),
            outcome == old(self).begins(),
            outcome == if old(self).spec_writable() {
                Ok::<(), Error>(())
            } else {
                Err(Error::WriterBroken)
            },
    {
        if !self.writable {
            return Err(Error::WriterBroken);
        }
        self.writable = false;
        Ok(())
    }

    /// Ends the write that was begun, all of whose bytes were taken.
    pub fn end(&mut self)
        ensures
            final(self).spec_inner() == old(self).spec_inner(),
            final(self).spec_writable(),
    {
        self.writable = true;
    }
}

/// Whether each of some writes, told by whether it comes to its end, is let begin.
pub open spec fn writes_begun(writable: bool, ends: Seq<bool>) -> Seq<bool>
    decreases ends.len(),
{
    if ends.len() == 0 {
        Seq::empty()
    } else {
        seq![writable] + writes_begun(writable && ends[0], ends.skip(1))
    }
}

/// No write begins after one that did not come to its end.
pub proof fn law_cut_write_is_the_last(writable: bool, ends: Seq<bool>, cut: int, later: int)
    requires
        0 <= cut < later < ends.len(),
        !ends[cut],
    ensures
        writes_begun(writable, ends).len() == ends.len(),
        !writes_begun(writable, ends)[later],
    decreases ends.len(),
{
    let rest = ends.skip(1);
    let next = writable && ends[0];
    lemma_writes_begun(next, rest);
    if cut > 0 {
        law_cut_write_is_the_last(next, rest, cut - 1, later - 1);
    }
    assert(writes_begun(writable, ends)[later] == writes_begun(next, rest)[later - 1]);
}

proof fn lemma_writes_begun(writable: bool, ends: Seq<bool>)
    ensures
        writes_begun(writable, ends).len() == ends.len(),
        !writable ==> forall|i: int| 0 <= i < ends.len() ==> !#[trigger] writes_begun(
            writable,
            ends,
        )[i],
    decreases ends.len(),
{
    if ends.len() > 0 {
        let next = writable && ends[0];
        lemma_writes_begun(next, ends.skip(1));
        if !writable {
            assert forall|i: int| 0 <= i < ends.len() implies !#[trigger] writes_begun(
                writable,
                ends,
            )[i] by {
                if i > 0 {
                    assert(writes_begun(writable, ends)[i] == writes_begun(next, ends.skip(1))[i
                        - 1]);
                }
            }
        }
    }
}

/// What the other end gets of some writes, each told by its bytes and, where it does not
/// come to its end, by how many of them were taken: a write that may not begin sends
/// nothing.
pub open spec fn sent(writable: bool, writes: Seq<(Seq<u8>, Option<int>)>) -> Seq<u8>
    decreases writes.len(),
{
    if writes.len() == 0 || !writable {
        Seq::empty()
    } else {
        match writes[0].1 {
            None => writes[0].0 + sent(true, writes.skip(1)),
            Some(taken) => writes[0].0.take(taken) + sent(false, writes.skip(1)),
        }
    }
}

/// A new writer sends the bytes of its writes whole and in order, up to the first that does
/// not come to its end. Of that one it sends what was taken, and nothing behind it: every
/// later write is refused, as on a broken pipe. `whole` writes come to their end before
/// the first that does not.
pub proof fn law_writes_are_sent_in_order(writes: Seq<(Seq<u8>, Option<int>)>, whole: int)
    requires
        0 <= whole <= writes.len(),
        forall|i: int| 0 <= i < whole ==> (#[trigger] writes[i]).1 is None,
        whole < writes.len() ==> writes[whole].1 is Some,
    ensures
        sent(true, writes) == joined(
            writes.take(whole).map_values(|write: (Seq<u8>, Option<int>)| write.0),
        ) + if whole < writes.len() {
            writes[whole].0.take((writes[whole].1)->0)
        } else {
            Seq::empty()
        },
        ({
            let begun = writes_begun(
                true,
                writes.map_values(|write: (Seq<u8>, Option<int>)| write.1 is None),
            );
            &&& begun.len() == writes.len()
            &&& forall|i: int| 0 <= i < writes.len() ==> #[trigger] begun[i] == (i <= whole)
        }),
        Error::WriterBroken.spec_kind() == ErrorKind::BrokenPipe,
    decreases writes.len(),
{
    let ends = writes.map_values(|write: (Seq<u8>, Option<int>)| write.1 is None);
    let parts = writes.take(whole).map_values(|write: (Seq<u8>, Option<int>)| write.0);
    lemma_writes_begun(true, ends);
    if whole == 0 {
        assert(parts =~= Seq::empty());
        if writes.len() > 0 {
            let first = writes[0].0.take((writes[0].1)->0);
            assert(sent(false, writes.skip(1)) =~= Seq::empty());
            assert(first + Seq::<u8>::empty() =~= first);
            assert(Seq::<u8>::empty() + first =~= first);
            assert forall|i: int| 0 <= i < writes.len() implies #[trigger] writes_begun(true, ends)[i]
                == (i <= whole) by {
                if i > 0 {
                    law_cut_write_is_the_last(true, ends, 0, i);
                }
            }
        }
    } else {
        let more = writes.skip(1);
        assert forall|i: int| 0 <= i < whole - 1 implies (#[trigger] more[i]).1 is None by {
            assert(more[i] == writes[i + 1]);
        }
        law_writes_are_sent_in_order(more, whole - 1);
        let more_ends = more.map_values(|write: (Seq<u8>, Option<int>)| write.1 is None);
        let more_parts = more.take(whole - 1).map_values(
            |write: (Seq<u8>, Option<int>)| write.0,
        );
        assert(writes[0].1 is None);
        assert(ends.skip(1) =~= more_ends);
        assert(parts.skip(1) =~= more_parts);
        assert(parts[0] == writes[0].0);
        let tail = if whole < writes.len() {
            writes[whole].0.take((writes[whole].1)->0)
        } else {
            Seq::empty()
        };
        assert(writes[0].0 + (joined(more_parts) + tail) =~= (writes[0].0 + joined(more_parts))
            + tail);
        assert forall|i: int| 0 <= i < writes.len() implies #[trigger] writes_begun(true, ends)[i]
            == (i <= whole) by {
            if i > 0 {
                assert(writes_begun(true, ends)[i] == writes_begun(true, more_ends)[i - 1]);
            }
        }
    }
}

/// The sending half of a connection.
pub struct Sender<W> {
    pub tcp: SocketWriter<W>,
    pub secure: SecureSender,
    pub frame: Vec<u8>,
}

impl<W> Sender<W> {
    /// Makes ready to send a packet: its frame stands in `frame`, and the write of it has
    /// begun. The packet uses up its number even where the writer is broken, for nothing
    /// can be sent there any more. `tag` makes the packet's tag.
    pub fn send_packet<T>(&mut self, kind: PacketKind, payload: &[u8], tag: T) -> (outcome: Result<
        (),
        Error,
    >) where T: FnOnce(&SessionKey, u64, &[u8]) -> [u8; AUTH_SIZE]
        requires
            forall|key: &SessionKey, counter: u64, bytes: &[u8]|
                call_requires(tag, (key, counter, bytes)),
        ensures
            old(self).sends(kind, payload@, tag, *final(self), outcome),
    {
        match self.secure.seal(&mut self.frame, kind, payload, tag) {
            Err(error) => Err(error),
            Ok(_) => self.tcp.begin(),
        }
    }

    /// What comes of making ready to send a packet.
    pub open spec fn sends<T>(
        self,
        kind: PacketKind,
        payload: Seq<u8>,
        tag: T,
        after: Self,
        outcome: Result<(), Error>,
    ) -> bool where T: FnOnce(&SessionKey, u64, &[u8]) -> [u8; AUTH_SIZE] {
        &&& after.tcp.spec_inner() == self.tcp.spec_inner()
        &&& after.secure.spec_key() == self.secure.spec_key()
        &&& if payload.len() > MAX_RECORD_SIZE {
            &&& outcome == Err::<(), Error>(Error::PayloadTooLarge)
            &&& after.unchanged(self)
        } else if self.secure.spec_counter() == u64::MAX {
            &&& outcome == Err::<(), Error>(Error::CounterExhausted)
            &&& after.unchanged(self)
        } else {
            &&& outcome == if self.tcp.spec_writable() {
                Ok::<(), Error>(())
            } else {
                Err(Error::WriterBroken)
            }
            &&& !after.tcp.spec_writable()
            &&& after.secure.spec_counter() == self.secure.spec_counter() + 1
            &&& exists|bytes: &[u8], made: [u8; AUTH_SIZE]|
                {
                    &&& bytes@ == authenticated(kind, payload)
                    &&& #[trigger] call_ensures(
                        tag,
                        (&self.secure.spec_key(), self.secure.spec_counter(), bytes),
                        made,
                    )
                    &&& after.frame@ == packet(kind, payload, made@)
                }
        }
    }

    /// A record that is too large does no harm: it is refused as invalid input, nothing is
    /// written and no number is used, and the next record, up to the largest that there may
    /// be, is sent and comes out at the other end as it is. The tags have to be checked by
    /// making them.
    pub proof fn law_record_follows_one_too_large<L, T, V>(
        self,
        mac: spec_fn(SessionKey, u64, Seq<u8>) -> Seq<u8>,
        large: Seq<u8>,
        large_tag: L,
        refusing: Self,
        refused: Result<(), Error>,
        record: Seq<u8>,
        tag: T,
        sending: Self,
        sent: Result<(), Error>,
        receiver: SecureReceiver,
        verify: V,
        after: SecureReceiver,
        outcome: Result<Vec<u8>, Error>,
    ) where
        L: FnOnce(&SessionKey, u64, &[u8]) -> [u8; AUTH_SIZE],
        T: FnOnce(&SessionKey, u64, &[u8]) -> [u8; AUTH_SIZE],
        V: FnOnce(&SessionKey, u64, &[u8], &[u8]) -> bool,

        requires
            self.tcp.spec_writable(),
            self.secure.spec_counter() < u64::MAX,
            receiver.spec_key() == self.secure.spec_key(),
            receiver.spec_counter() == Some(self.secure.spec_counter()),
            large.len() > MAX_RECORD_SIZE,
            record.len() <= MAX_RECORD_SIZE,
            makes_by(tag, mac),
            checks_by(verify, mac),
            self.sends(PacketKind::Record, large, large_tag, refusing, refused),
            refusing.sends(PacketKind::Record, record, tag, sending, sent),
            receives(receiver, sending.frame@, verify, after, outcome),
        ensures
            refused == Err::<(), Error>(Error::PayloadTooLarge),
            Error::PayloadTooLarge.spec_kind() == ErrorKind::InvalidInput,
            refusing.unchanged(self),
            sent is Ok,
            progress(sending.frame@) is Whole,
            outcome matches Ok(received) && received@ == record,
            after.spec_counter() == Some(sending.secure.spec_counter()),
    {
        let (bytes, made) = choose|bytes: &[u8], made: [u8; AUTH_SIZE]|
            {
                &&& bytes@ == authenticated(PacketKind::Record, record)
                &&& #[trigger] call_ensures(
                    tag,
                    (&refusing.secure.spec_key(), refusing.secure.spec_counter(), bytes),
                    made,
                )
                &&& sending.frame@ == packet(PacketKind::Record, record, made@)
            };
        assert(call_ensures(
            tag,
            (&refusing.secure.spec_key(), refusing.secure.spec_counter(), bytes),
            made,
        ));
        law_unpacked_is_packed(PacketKind::Record, record, made@, PacketKind::Record, record);
        let opened = choose|opened: Result<(PacketKind, Vec<u8>), Error>|
            {
                &&& #[trigger] opens(receiver, sending.frame@, verify, after, opened)
                &&& outcome == record_of(opened)
            };
        assert(opens(receiver, sending.frame@, verify, after, opened));
    }

    /// Nothing was sent and no number was used.
    pub open spec fn unchanged(self, other: Self) -> bool {
        &&& self.tcp.spec_writable() == other.tcp.spec_writable()
        &&& self.secure.spec_counter() == other.secure.spec_counter()
        &&& self.frame@ == other.frame@
    }
}

/// What a client makes of a frame of the router: the record in it. `verify` checks the
/// packet's tag.
pub fn receive<V>(secure: &mut SecureReceiver, frame: Frame, verify: V) -> (outcome: Result<
    Vec<u8>,
    Error,
>) where V: FnOnce(&SessionKey, u64, &[u8], &[u8]) -> bool
    requires
        forall|key: &SessionKey, counter: u64, bytes: &[u8], tag: &[u8]|
            call_requires(verify, (key, counter, bytes, tag)),
    ensures
        receives(*old(secure), frame@, verify, *final(secure), outcome),
{
    let opened = secure.open(frame, verify);
    let ghost seen = opened;
    assert(opens(*old(secure), frame@, verify, *secure, seen));
    match opened {
        Err(error) => Err(error),
        Ok((PacketKind::Record, payload)) => Ok(payload),
        Ok(_) => Err(Error::UnexpectedRouterPacket),
    }
}

/// What comes of a frame of the router at a client.
pub open spec fn receives<V>(
    before: SecureReceiver,
    frame: Seq<u8>,
    verify: V,
    after: SecureReceiver,
    outcome: Result<Vec<u8>, Error>,
) -> bool where V: FnOnce(&SessionKey, u64, &[u8], &[u8]) -> bool {
    exists|opened: Result<(PacketKind, Vec<u8>), Error>|
        {
            &&& #[trigger] opens(before, frame, verify, after, opened)
            &&& outcome == record_of(opened)
        }
}

/// The record of a packet that a client opened: the router sends nothing else.
pub open spec fn record_of(opened: Result<(PacketKind, Vec<u8>), Error>) -> Result<Vec<u8>, Error> {
    match opened {
        Err(error) => Err(error),
        Ok((PacketKind::Record, payload)) => Ok(payload),
        Ok(_) => Err(Error::UnexpectedRouterPacket),
    }
}

/// What comes of the router's answer, or of the end of the connection in its place.
pub open spec fn connects<H, A, B, R, C, T>(
    state: H,
    response: Option<Seq<u8>>,
    wire_version: u8,
    read: R,
    complete: C,
    tag: T,
    outcome: Result<(SecureReceiver, SecureSender, Vec<u8>), Error>,
) -> bool where
    R: FnOnce(&[u8]) -> Decoded<A, B>,
    C: FnOnce(H, RouteHeader, B) -> Agreed,
    T: FnOnce(&SessionKey, u64, &[u8]) -> [u8; AUTH_SIZE],
 {
    match response {
        None => connect_failed(outcome, Error::RouterDisconnected),
        Some(response) => exists|bytes: &[u8], decoded: Decoded<A, B>|
            {
                &&& bytes@ == response.skip(FRAME_HEADER_SIZE as int)
                &&& #[trigger] call_ensures(read, (bytes,), decoded)
                &&& match checked_handshake(decoded, wire_version) {
                    Err(error) => connect_failed(outcome, error),
                    Ok((header, HandshakeRecord::Ik2(answer))) => exists|agreed: Agreed| #[trigger]
                        call_ensures(complete, (state, header.route, answer), agreed)
                            && match agreed {
                            Err(text) => connect_failed(outcome, Error::Rejected(text)),
                            Ok((rx, tx)) => connected(rx, tx, tag, outcome),
                        },
                    Ok(_) => connect_failed(outcome, Error::UnexpectedHandshake),
                }
            },
    }
}

/// Ends the set-up of a connection with the router's answer, or with the end of the
/// connection in its place: both directions, and the frame of the empty confirmation by
/// which the client shows that it has the keys. `read` and `complete` are as for
/// `ClientHandshake::finish`; `tag` makes the confirmation's tag.
pub fn connect<H, A, B, R, C, T>(
    handshake: ClientHandshake<H>,
    response: Option<Frame>,
    wire_version: u8,
    read: R,
    complete: C,
    tag: T,
) -> (outcome: Result<(SecureReceiver, SecureSender, Vec<u8>), Error>) where
    R: FnOnce(&[u8]) -> Decoded<A, B>,
    C: FnOnce(H, RouteHeader, B) -> Agreed,
    T: FnOnce(&SessionKey, u64, &[u8]) -> [u8; AUTH_SIZE],

    requires
        response matches Some(response) ==> response@.len() >= FRAME_HEADER_SIZE,
        forall|bytes: &[u8]| call_requires(read, (bytes,)),
        forall|state: H, route: RouteHeader, answer: B|
            call_requires(complete, (state, route, answer)),
        forall|key: &SessionKey, counter: u64, bytes: &[u8]|
            call_requires(tag, (key, counter, bytes)),
    ensures
        connects(
            handshake.state(),
            match response {
                Some(response) => Some(response@),
                None => None,
            },
            wire_version,
            read,
            complete,
            tag,
            outcome,
        ),
        response is None ==> connect_failed(outcome, Error::RouterDisconnected),
        response matches Some(response) ==> exists|bytes: &[u8], decoded: Decoded<A, B>|
            {
                &&& bytes@ == response@.skip(FRAME_HEADER_SIZE as int)
                &&& #[trigger] call_ensures(read, (bytes,), decoded)
                &&& match checked_handshake(decoded, wire_version) {
                    Err(error) => connect_failed(outcome, error),
                    Ok((header, HandshakeRecord::Ik2(answer))) => exists|agreed: Agreed| #[trigger]
                        call_ensures(complete, (handshake.state(), header.route, answer), agreed)
                            && match agreed {
                            Err(text) => connect_failed(outcome, Error::Rejected(text)),
                            Ok((rx, tx)) => connected(rx, tx, tag, outcome),
                        },
                    Ok(_) => connect_failed(outcome, Error::UnexpectedHandshake),
                }
            },
{
    let response = match response {
        Some(response) => response,
        None => return Err(Error::RouterDisconnected),
    };
    let (receiver, mut sender) = match handshake.finish(&response, wire_version, read, complete) {
        Ok(agreed) => agreed,
        Err(error) => return Err(error),
    };
    let mut frame: Vec<u8> = Vec::new();
    let empty: [u8; 0] = [];
    assert(empty@ =~= Seq::<u8>::empty());
    match sender.seal(&mut frame, PacketKind::Confirm, empty.as_slice(), tag) {
        Ok(_) => Ok((receiver, sender, frame)),
        Err(error) => Err(error),
    }
}

/// The set-up was refused for this reason.
pub open spec fn connect_failed(
    outcome: Result<(SecureReceiver, SecureSender, Vec<u8>), Error>,
    error: Error,
) -> bool {
    outcome == Err::<(SecureReceiver, SecureSender, Vec<u8>), Error>(error)
}

/// The set-up came to its end: the confirmation took the client's number zero, so what
/// the client sends next has number one, and the router's first record has number zero.
pub open spec fn connected<T>(
    rx: SessionKey,
    tx: SessionKey,
    tag: T,
    outcome: Result<(SecureReceiver, SecureSender, Vec<u8>), Error>,
) -> bool where T: FnOnce(&SessionKey, u64, &[u8]) -> [u8; AUTH_SIZE] {
    &&& outcome matches Ok((receiver, sender, frame))
    &&& receiver.spec_key() == rx
    &&& receiver.spec_counter() == Some(0u64)
    &&& sender.spec_key() == tx
    &&& sender.spec_counter() == 1
    &&& exists|bytes: &[u8], made: [u8; AUTH_SIZE]|
        {
            &&& bytes@ == authenticated(PacketKind::Confirm, Seq::empty())
            &&& #[trigger] call_ensures(tag, (&tx, 0u64, bytes), made)
            &&& frame@ == packet(PacketKind::Confirm, Seq::empty(), made@)
        }
}

} // verus!
