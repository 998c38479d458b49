//! Length-delimited frames and the decoder that assembles them from whatever the
//! connection delivers.
use vstd::prelude::*;

use crate::error::Error;
use crate::protocol::wire::{le32_value, read_le32, FRAME_HEADER_SIZE, MAX_FRAME_SIZE};

verus! {

/// A frame with its header.
#[derive(Debug)]
pub struct Frame(pub Vec<u8>);

impl View for Frame {
    type V = Seq<u8>;

    open spec fn view(&self) -> Seq<u8> {
        self.0@
    }
}

impl Frame {
    /// What the frame carries behind its header.
    pub fn payload(&self) -> (payload: &[u8])
        requires
            self@.len() >= FRAME_HEADER_SIZE,
        ensures
            payload@ == self@.skip(FRAME_HEADER_SIZE as int),
    {
        &self.0.as_slice()[FRAME_HEADER_SIZE..self.0.len()]
    }
}

/// Whether the first bytes of a frame announce more than the transport carries.
pub open spec fn announces_too_much(received: Seq<u8>) -> bool {
    received.len() >= FRAME_HEADER_SIZE && le32_value(received) > MAX_FRAME_SIZE
}

/// Whether a byte string is one whole frame that the transport carries.
pub open spec fn is_frame(bytes: Seq<u8>) -> bool {
    &&& bytes.len() >= FRAME_HEADER_SIZE
    &&& le32_value(bytes) <= MAX_FRAME_SIZE
    &&& bytes.len() == FRAME_HEADER_SIZE + le32_value(bytes)
}

/// How many bytes of a frame are known to be missing behind those that came.
pub open spec fn missing(received: Seq<u8>) -> int {
    if received.len() < FRAME_HEADER_SIZE {
        FRAME_HEADER_SIZE - received.len()
    } else if announces_too_much(received) {
        0
    } else {
        FRAME_HEADER_SIZE + le32_value(received) - received.len()
    }
}

/// What the bytes of a frame that came so far amount to.
pub enum Progress {
    /// The frame is larger than the transport carries.
    TooLarge,
    /// The frame is whole.
    Whole,
    /// More bytes are due.
    Partial,
}

/// What the bytes of a frame that came so far amount to.
pub open spec fn progress(received: Seq<u8>) -> Progress {
    if announces_too_much(received) {
        Progress::TooLarge
    } else if is_frame(received) {
        Progress::Whole
    } else {
        Progress::Partial
    }
}

/// Assembles frames from the pieces that a connection delivers.
pub struct FrameDecoder {
    frame: Vec<u8>,
    filled: usize,
}

impl FrameDecoder {
    /// The bytes of the current frame that came so far.
    pub closed spec fn received(self) -> Seq<u8> {
        self.frame@.take(self.filled as int)
    }

    /// What stands in the part of the buffer that is still to be filled.
    pub closed spec fn room(self) -> Seq<u8> {
        self.frame@.skip(self.filled as int)
    }

    /// The room is what is missing of the frame, so a read never crosses a frame's end,
    /// and a body is given room only once its length has been found acceptable.
    pub closed spec fn well_formed(self) -> bool {
        &&& self.filled <= self.frame@.len()
        &&& FRAME_HEADER_SIZE <= self.frame@.len() <= FRAME_HEADER_SIZE + MAX_FRAME_SIZE
        &&& !is_frame(self.received())
        &&& announces_too_much(self.received()) ==> self.received().len() == FRAME_HEADER_SIZE
        &&& self.room().len() == missing(self.received())
    }

    /// Frames are bounded before their bodies are given room: the room is exactly what is
    /// missing, at most one frame is held, a body that is too large gets no room at all, and
    /// a whole frame is never kept back.
    pub proof fn law_frames_are_bounded(self)
        requires
            self.well_formed(),
        ensures
            self.room().len() == missing(self.received()),
            self.received().len() + self.room().len() <= FRAME_HEADER_SIZE + MAX_FRAME_SIZE,
            !is_frame(self.received()),
            announces_too_much(self.received()) ==> self.received().len() == FRAME_HEADER_SIZE
                && self.room().len() == 0,
    {
    }

    /// A decoder that waits for the first byte of a frame.
    pub fn new() -> (decoder: Self)
        ensures
            decoder.well_formed(),
            decoder.received() == Seq::<u8>::empty(),
            decoder.room().len() == FRAME_HEADER_SIZE,
    {
        let decoder = FrameDecoder { frame: vec![0u8; FRAME_HEADER_SIZE], filled: 0 };
        assert(decoder.received() =~= Seq::<u8>::empty());
        decoder
    }

    /// The room that the next bytes of the connection go into. Filling it changes nothing
    /// else (a slice keeps its length while it is lent out).
    pub fn buffer(&mut self) -> (room: &mut [u8])
        requires
            old(self).well_formed(),
        ensures
            room@ == old(self).room(),
            final(self).received() == old(self).received(),
            final(self).room() == final(room)@,
            final(room)@.len() == room@.len() ==> final(self).well_formed(),
    {
        let (_, room) = self.frame.as_mut_slice().split_at_mut(self.filled);
        room
    }

    /// Whether some bytes of a frame came, but not all.
    pub fn is_partial(&self) -> (partial: bool)
        requires
            self.well_formed(),
        ensures
            partial == (self.received().len() != 0),
    {
        self.filled != 0
    }

    /// What comes of taking some bytes of the room as delivered.
    pub open spec fn advances(
        self,
        amount: usize,
        after: Self,
        outcome: Result<Option<Frame>, Error>,
    ) -> bool {
        if amount > self.room().len() {
            &&& outcome == Err::<Option<Frame>, Error>(Error::BeyondBuffer)
            &&& after.received() == self.received()
            &&& after.room() == self.room()
        } else {
            let received = self.received() + self.room().take(amount as int);
            match progress(received) {
                Progress::TooLarge => {
                    &&& outcome == Err::<Option<Frame>, Error>(Error::FrameTooLarge)
                    &&& after.received() == received
                },
                Progress::Whole => {
                    &&& outcome matches Ok(Some(frame))
                    &&& frame@ == received
                    &&& after.received() == Seq::<u8>::empty()
                },
                Progress::Partial => {
                    &&& outcome matches Ok(None)
                    &&& after.received() == received
                },
            }
        }
    }

    /// Takes the first `amount` bytes of the room as delivered.
    pub fn advance(&mut self, amount: usize) -> (outcome: Result<Option<Frame>, Error>)
        requires
            old(self).well_formed(),
        ensures
            old(self).advances(amount, *final(self), outcome),
            final(self).well_formed(),
            amount > old(self).room().len() ==> {
                &&& outcome == Err::<Option<Frame>, Error>(Error::BeyondBuffer)
                &&& final(self).received() == old(self).received()
                &&& final(self).room() == old(self).room()
            },
            amount <= old(self).room().len() ==> {
                let received = old(self).received() + old(self).room().take(amount as int);
                match progress(received) {
                    Progress::TooLarge => {
                        &&& outcome == Err::<Option<Frame>, Error>(Error::FrameTooLarge)
                        &&& final(self).received() == received
                    },
                    Progress::Whole => {
                        &&& outcome matches Ok(Some(frame)) && frame@ == received
                        &&& final(self).received() == Seq::<u8>::empty()
                    },
                    Progress::Partial => {
                        &&& outcome matches Ok(None)
                        &&& final(self).received() == received
                    },
                }
            },
    {
        if amount > self.frame.len() - self.filled {
            return Err(Error::BeyondBuffer);
        }
        let ghost received = self.received() + self.room().take(amount as int);
        self.filled += amount;
        assert(self.received() =~= received);

        if self.filled == FRAME_HEADER_SIZE && self.frame.len() == FRAME_HEADER_SIZE {
            let length: usize = read_le32(self.frame.as_slice()) as usize;
            assert(self.frame@ =~= received);
            if length > MAX_FRAME_SIZE {
                return Err(Error::FrameTooLarge);
            }
            self.frame.resize(FRAME_HEADER_SIZE + length, 0);
            assert(self.received() =~= received);
        }
        if self.filled != self.frame.len() {
            return Ok(None);
        }
        assert(self.frame@ =~= received);
        proof {
            if old(self).received().len() >= FRAME_HEADER_SIZE {
                assert(forall|i: int| 0 <= i < 4 ==> received[i] == old(self).received()[i]);
            }
            assert(is_frame(received));
        }
        self.filled = 0;
        let mut frame: Vec<u8> = vec![0u8; FRAME_HEADER_SIZE];
        std::mem::swap(&mut frame, &mut self.frame);
        assert(self.received() =~= Seq::<u8>::empty());
        Ok(Some(Frame(frame)))
    }

    /// Whether the connection may end here: only between frames.
    pub fn finish(&self) -> (outcome: Result<(), Error>)
        requires
            self.well_formed(),
        ensures
            outcome is Ok <==> self.received().len() == 0,
            outcome matches Err(error) ==> error == Error::EndedWithinFrame,
    {
        if self.filled == 0 {
            Ok(())
        } else {
            Err(Error::EndedWithinFrame)
        }
    }
}

impl Default for FrameDecoder {
    fn default() -> (decoder: Self)
        ensures
            decoder.well_formed(),
            decoder.received() == Seq::<u8>::empty(),
            decoder.room().len() == FRAME_HEADER_SIZE,
    {
        FrameDecoder::new()
    }
}

/// A frame that is cut anywhere is recognised as partial, and the decoder never asks for
/// more than the rest of it.
pub proof fn law_cut_frame_is_partial(frame: Seq<u8>, cut: int)
    requires
        is_frame(frame),
        0 <= cut < frame.len(),
    ensures
        progress(frame.take(cut)) is Partial,
        progress(frame) is Whole,
        0 < missing(frame.take(cut)) <= frame.len() - cut,
{
    if cut >= FRAME_HEADER_SIZE {
        assert(forall|i: int| 0 <= i < 4 ==> frame.take(cut)[i] == frame[i]);
    }
}

/// Byte strings one behind the other.
pub open spec fn joined(parts: Seq<Seq<u8>>) -> Seq<u8>
    decreases parts.len(),
{
    if parts.len() == 0 {
        Seq::empty()
    } else {
        parts[0] + joined(parts.skip(1))
    }
}

/// The frames that a decoder hands out when it has some bytes of a frame and the
/// connection then delivers these pieces.
pub open spec fn handed_out(received: Seq<u8>, pieces: Seq<Seq<u8>>) -> Seq<Seq<u8>>
    decreases pieces.len(),
{
    if pieces.len() == 0 {
        Seq::empty()
    } else {
        let received = received + pieces[0];
        match progress(received) {
            Progress::TooLarge => Seq::empty(),
            Progress::Whole => seq![received] + handed_out(Seq::empty(), pieces.skip(1)),
            Progress::Partial => handed_out(received, pieces.skip(1)),
        }
    }
}

/// Whether each piece goes into the room that the decoder offers for it.
pub open spec fn pieces_fit(received: Seq<u8>, pieces: Seq<Seq<u8>>) -> bool
    decreases pieces.len(),
{
    pieces.len() == 0 || {
        let next = received + pieces[0];
        &&& pieces[0].len() <= missing(received)
        &&& match progress(next) {
            Progress::TooLarge => true,
            Progress::Whole => pieces_fit(Seq::empty(), pieces.skip(1)),
            Progress::Partial => pieces_fit(next, pieces.skip(1)),
        }
    }
}

/// However a connection cuts a run of frames into pieces, the decoder hands out those
/// frames, each once and in order.
pub proof fn law_pieces_give_the_frames(pieces: Seq<Seq<u8>>, frames: Seq<Seq<u8>>)
    requires
        forall|i: int| 0 <= i < frames.len() ==> is_frame(#[trigger] frames[i]),
        joined(pieces) == joined(frames),
        pieces_fit(Seq::empty(), pieces),
    ensures
        handed_out(Seq::empty(), pieces) == frames,
{
    assert(Seq::<u8>::empty() + joined(pieces) =~= joined(frames));
    lemma_pieces_give_the_frames(Seq::empty(), pieces, frames);
}

proof fn lemma_pieces_give_the_frames(
    received: Seq<u8>,
    pieces: Seq<Seq<u8>>,
    frames: Seq<Seq<u8>>,
)
    requires
        forall|i: int| 0 <= i < frames.len() ==> is_frame(#[trigger] frames[i]),
        received + joined(pieces) == joined(frames),
        pieces_fit(received, pieces),
        frames.len() == 0 ==> received.len() == 0,
        frames.len() > 0 ==> received.len() < frames[0].len(),
    ensures
        handed_out(received, pieces) == frames,
    decreases pieces.len(),
{
    let stream = received + joined(pieces);
    if pieces.len() == 0 {
        if frames.len() > 0 {
            assert(joined(frames).len() >= frames[0].len());
        }
        assert(frames =~= Seq::empty());
    } else if frames.len() == 0 {
        assert(pieces[0].len() == 0);
        assert(received + pieces[0] =~= Seq::<u8>::empty());
        assert(Seq::<u8>::empty() + joined(pieces.skip(1)) =~= joined(frames));
        lemma_pieces_give_the_frames(Seq::empty(), pieces.skip(1), frames);
    } else {
        let frame = frames[0];
        let next = received + pieces[0];
        assert(stream =~= next + joined(pieces.skip(1)));
        assert(stream =~= frame + joined(frames.skip(1)));
        assert(forall|i: int| 0 <= i < received.len() ==> received[i] == stream[i]);
        assert(forall|i: int| 0 <= i < next.len() ==> next[i] == stream[i]);
        assert(forall|i: int| 0 <= i < frame.len() ==> frame[i] == stream[i]);
        assert(next.len() <= frame.len());
        if next.len() == frame.len() {
            assert(next =~= frame);
            assert(joined(pieces.skip(1)) =~= stream.skip(frame.len() as int));
            assert(joined(frames.skip(1)) =~= stream.skip(frame.len() as int));
            assert(Seq::<u8>::empty() + joined(pieces.skip(1)) =~= joined(frames.skip(1)));
            assert(forall|i: int|
                0 <= i < frames.skip(1).len() ==> #[trigger] frames.skip(1)[i] == frames[i + 1]);
            lemma_pieces_give_the_frames(Seq::empty(), pieces.skip(1), frames.skip(1));
            assert(frames =~= seq![frame] + frames.skip(1));
        } else {
            assert(progress(next) is Partial);
            lemma_pieces_give_the_frames(next, pieces.skip(1), frames);
        }
    }
}

} // verus!
