//! The generated downloads: what bytes they are made of, in which pieces they are sent, and
//! how the one who asked for them checks what came.
use vstd::prelude::*;

use crate::external::{absorbed, sha256, sha256_finalize, sha256_new, sha256_update};
use crate::protocol::frame::joined;
use crate::qid::same_bytes;
use crate::text::{decimal, decimal_text, is_trimmed, parse, parsed, same_text, trim, ParseError};

verus! {

/// The pattern's bytes count up and start again after this many.
pub const PATTERN_PERIOD: usize = 251;

/// How much is sent in one piece by the server and by the ping-pong peers.
pub const CHUNK_LEN: usize = 4096;

/// How much is sent in one piece by the terminal peer.
pub const LARGE_CHUNK_LEN: usize = 32768;

/// The longest download that is served to a peer, or asked of one.
pub const MAX_DOWNLOAD: u64 = 16 * 1024 * 1024;

/// How many milliseconds lie between two reports of a download's progress.
pub const REPORT_INTERVAL: u64 = 250;

/// The pattern that every piece is cut from the front of.
pub open spec fn pattern_of(length: nat) -> Seq<u8> {
    Seq::new(length, |i: int| (i % PATTERN_PERIOD as int) as u8)
}

/// The bytes of a download that is sent in pieces of `chunk` bytes: the pattern starts anew
/// with each piece.
pub open spec fn content(chunk: int, length: nat) -> Seq<u8> {
    Seq::new(length, |i: int| ((i % chunk) % PATTERN_PERIOD as int) as u8)
}

/// Makes the pattern.
pub fn pattern(length: usize) -> (bytes: Vec<u8>)
    ensures
        bytes@ == pattern_of(length as nat),
{
    let mut bytes: Vec<u8> = Vec::new();
    let mut i: usize = 0;
    while i < length
        invariant
            i <= length,
            bytes@ == pattern_of(i as nat),
        decreases length - i,
    {
        bytes.push((i % PATTERN_PERIOD) as u8);
        assert(bytes@ =~= pattern_of((i + 1) as nat));
        i += 1;
    }
    assert(bytes@ =~= pattern_of(length as nat));
    bytes
}

/// How much of a download is in the next piece.
pub open spec fn piece(remaining: int, chunk: int) -> int {
    if remaining < chunk {
        remaining
    } else {
        chunk
    }
}

/// The pieces of a download, of which so much is sent.
pub open spec fn pieces_of(remaining: nat, chunk: nat) -> Seq<Seq<u8>>
    decreases remaining,
{
    if remaining == 0 || chunk == 0 {
        Seq::empty()
    } else {
        let size = piece(remaining as int, chunk as int);
        seq![pattern_of(chunk).take(size)] + pieces_of((remaining - size) as nat, chunk)
    }
}

/// The pieces of a download that are still to be sent.
#[derive(Debug)]
pub struct Pieces {
    /// What every piece is cut from the front of.
    pattern: Vec<u8>,
    remaining: u64,
}

impl Pieces {
    /// The pieces' greatest length.
    pub closed spec fn chunk(self) -> nat {
        self.pattern@.len()
    }

    /// How much is still to be sent.
    pub closed spec fn remaining(self) -> u64 {
        self.remaining
    }

    /// The pattern is the one of its length, which is not nothing.
    pub closed spec fn well_formed(self) -> bool {
        &&& self.pattern@.len() > 0
        &&& self.pattern@ == pattern_of(self.pattern@.len())
    }

    /// All pieces of a download.
    pub fn new(length: u64, chunk: usize) -> (pieces: Self)
        requires
            chunk > 0,
        ensures
            pieces.well_formed(),
            pieces.chunk() == chunk,
            pieces.remaining() == length,
    {
        Pieces { pattern: pattern(chunk), remaining: length }
    }

    /// What the next piece is, and what is left behind it.
    pub open spec fn gives(self, after: Self, next: Option<Seq<u8>>) -> bool {
        let size = piece(self.remaining() as int, self.chunk() as int);
        &&& after.chunk() == self.chunk()
        &&& next == if self.remaining() == 0 {
            None
        } else {
            Some(pattern_of(self.chunk()).take(size))
        }
        &&& after.remaining() == self.remaining() - if self.remaining() == 0 {
            0
        } else {
            size
        }
    }

    /// The next piece.
    pub fn next(&mut self) -> (next: Option<&[u8]>)
        requires
            old(self).well_formed(),
        ensures
            old(self).gives(
                *final(self),
                match next {
                    Some(bytes) => Some(bytes@),
                    None => None,
                },
            ),
            final(self).well_formed(),
            final(self).chunk() == old(self).chunk(),
            next is None <==> old(self).remaining() == 0,
            match next {
                None => final(self).remaining() == 0,
                Some(bytes) => {
                    let size = piece(old(self).remaining() as int, old(self).chunk() as int);
                    &&& bytes@ == pattern_of(old(self).chunk()).take(size)
                    &&& final(self).remaining() == old(self).remaining() - size
                },
            },
    {
        if self.remaining == 0 {
            return None;
        }
        let total: usize = self.pattern.len();
        let size: usize = if self.remaining < total as u64 {
            self.remaining as usize
        } else {
            total
        };
        self.remaining = self.remaining - size as u64;
        let bytes = &self.pattern.as_slice()[0..size];
        assert(bytes@ =~= pattern_of(old(self).chunk()).take(size as int));
        Some(bytes)
    }
}

/// Whatever the length, the pieces of a download make up its content.
pub proof fn law_pieces_make_the_content(length: nat, chunk: nat)
    requires
        chunk > 0,
    ensures
        joined(pieces_of(length, chunk)) == content(chunk as int, length),
    decreases length,
{
    if length == 0 {
        assert(content(chunk as int, length) =~= Seq::<u8>::empty());
    } else {
        let size = piece(length as int, chunk as int);
        let first = pattern_of(chunk).take(size);
        let rest = pieces_of((length - size) as nat, chunk);
        law_pieces_make_the_content((length - size) as nat, chunk);
        let all = pieces_of(length, chunk);
        assert(all[0] == first);
        assert(all.skip(1) =~= rest);
        let whole = content(chunk as int, length);
        let tail = content(chunk as int, (length - size) as nat);
        assert forall|i: int| 0 <= i < length implies #[trigger] (first + tail)[i] == whole[i] by {
            if i < size {
                assert(i % (chunk as int) == i) by (nonlinear_arith)
                    requires
                        0 <= i < chunk,
                ;
            } else {
                assert(size == chunk);
                assert((i - chunk) % (chunk as int) == i % (chunk as int)) by (nonlinear_arith)
                    requires
                        chunk <= i,
                        chunk > 0,
                {
                    vstd::arithmetic::div_mod::lemma_mod_sub_multiples_vanish(i, chunk as int);
                }
            }
        }
        assert(first + tail =~= whole);
    }
}

/// The digest of a download, which is announced before its first piece.
pub fn content_hash(length: u64, chunk: usize) -> (digest: Vec<u8>)
    requires
        chunk > 0,
    ensures
        digest@ == sha256(content(chunk as int, length as nat)),
        digest@.len() == 32,
{
    let mut hasher = sha256_new();
    let mut pieces = Pieces::new(length, chunk);
    proof {
        law_pieces_make_the_content(length as nat, chunk as nat);
        assert(Seq::<u8>::empty() + joined(pieces_of(length as nat, chunk as nat)) =~= content(
            chunk as int,
            length as nat,
        ));
    }
    loop
        invariant
            pieces.well_formed(),
            pieces.chunk() == chunk,
            chunk > 0,
            absorbed(hasher) + joined(pieces_of(pieces.remaining() as nat, chunk as nat))
                == content(chunk as int, length as nat),
        ensures
            absorbed(hasher) == content(chunk as int, length as nat),
        decreases pieces.remaining(),
    {
        let ghost before = pieces.remaining();
        let ghost taken = absorbed(hasher);
        match pieces.next() {
            None => {
                assert(joined(pieces_of(0, chunk as nat)) =~= Seq::<u8>::empty());
                assert(absorbed(hasher) + Seq::<u8>::empty() =~= absorbed(hasher));
                break;
            },
            Some(bytes) => {
                sha256_update(&mut hasher, bytes);
                proof {
                    let all = pieces_of(before as nat, chunk as nat);
                    let size = piece(before as int, chunk as int);
                    let rest = pieces_of((before - size) as nat, chunk as nat);
                    assert(all[0] == bytes@);
                    assert(all.skip(1) =~= rest);
                    assert(taken + joined(all) =~= (taken + bytes@) + joined(rest));
                }
            },
        }
    }
    sha256_finalize(hasher)
}

/// Why a transfer is not the one that was asked for.
#[derive(Clone, Copy, Debug, PartialEq, Eq, Structural)]
pub enum TransferError {
    Header,
    MissingPart,
    Filename,
    TooManyBytes,
    Mismatch(usize),
    ExtraPart,
    Length { received: usize, expected: usize },
}

impl TransferError {
    /// The words that each error is reported with.
    pub open spec fn spec_message(self) -> Seq<char> {
        match self {
            TransferError::Header => "incorrect transfer length header"@,
            TransferError::MissingPart => "missing byte part"@,
            TransferError::Filename => "unexpected filename"@,
            TransferError::TooManyBytes => "too many bytes"@,
            TransferError::Mismatch(at) => "byte mismatch at "@ + decimal_text(at as nat),
            TransferError::ExtraPart => "unexpected extra part"@,
            TransferError::Length { received, expected } => "received "@ + decimal_text(
                received as nat,
            ) + " bytes, expected "@ + decimal_text(expected as nat),
        }
    }

    /// The words that the error is reported with.
    pub fn message(&self) -> (message: String)
        ensures
            message@ == self.spec_message(),
    {
        match self {
            TransferError::Header => "incorrect transfer length header".to_owned(),
            TransferError::MissingPart => "missing byte part".to_owned(),
            TransferError::Filename => "unexpected filename".to_owned(),
            TransferError::TooManyBytes => "too many bytes".to_owned(),
            TransferError::Mismatch(at) => {
                let number = decimal(*at as u64);
                let message: String = "byte mismatch at ".to_owned();
                message.concat(number.as_str())
            },
            TransferError::ExtraPart => "unexpected extra part".to_owned(),
            TransferError::Length { received, expected } => {
                let came = decimal(*received as u64);
                let due = decimal(*expected as u64);
                let message: String = "received ".to_owned();
                let message = message.concat(came.as_str()).concat(" bytes, expected ");
                message.concat(due.as_str())
            },
        }
    }
}

/// The name of the only part of a transfer.
pub const PART_NAME: &'static str = "pattern.bin";

/// A transfer that is being checked byte by byte.
#[derive(Clone, Copy, Debug)]
pub struct TransferCheck {
    length: usize,
    received: usize,
}

impl TransferCheck {
    /// How much was asked for.
    pub closed spec fn spec_length(self) -> usize {
        self.length
    }

    /// How much came.
    pub closed spec fn spec_received(self) -> usize {
        self.received
    }

    /// No more came than was asked for.
    pub open spec fn well_formed(self) -> bool {
        self.spec_received() <= self.spec_length()
    }

    /// Begins to check a transfer of this length, whose header must repeat it.
    pub fn start(length: usize, header: &str) -> (outcome: Result<Self, TransferError>)
        ensures
            header@ != decimal_text(length as nat) ==> outcome == Err::<Self, TransferError>(
                TransferError::Header,
            ),
            header@ == decimal_text(length as nat) ==> {
                &&& outcome matches Ok(check)
                &&& check.well_formed()
                &&& check.spec_length() == length
                &&& check.spec_received() == 0
            },
    {
        if !same_text(header, decimal(length as u64).as_str()) {
            return Err(TransferError::Header);
        }
        Ok(TransferCheck { length, received: 0 })
    }

    /// What the name of the first part comes to.
    pub open spec fn named(filename: Option<Seq<char>>) -> Result<(), TransferError> {
        match filename {
            None => Err(TransferError::MissingPart),
            Some(filename) => if filename == PART_NAME@ {
                Ok(())
            } else {
                Err(TransferError::Filename)
            },
        }
    }

    /// What the next bytes come to: the first wrong one counts.
    pub open spec fn checks(
        self,
        chunk: Seq<u8>,
        after: Self,
        outcome: Result<(), TransferError>,
    ) -> bool {
        &&& after.spec_length() == self.spec_length()
        &&& after.spec_received() == self.spec_received() + if outcome is Ok {
            chunk.len() as int
        } else {
            0
        }
        &&& if self.spec_received() + chunk.len() > self.spec_length() {
            outcome == Err::<(), TransferError>(TransferError::TooManyBytes)
        } else {
            match outcome {
                Ok(_) => self.matches_content(chunk),
                Err(error) => {
                    &&& error matches TransferError::Mismatch(at)
                    &&& self.spec_received() <= at < self.spec_received() + chunk.len()
                    &&& chunk[at - self.spec_received()] != content_at(at as int)
                    &&& self.matches_content(chunk.take(at - self.spec_received()))
                },
            }
        }
    }

    /// What the end of the transfer comes to.
    pub open spec fn ends(self, extra_part: bool) -> Result<(), TransferError> {
        if extra_part {
            Err(TransferError::ExtraPart)
        } else if self.spec_received() != self.spec_length() {
            Err(
                TransferError::Length {
                    received: self.spec_received(),
                    expected: self.spec_length(),
                },
            )
        } else {
            Ok(())
        }
    }

    /// Checks the name of the first part, if there is one.
    pub fn part(&self, filename: Option<&str>) -> (outcome: Result<(), TransferError>)
        ensures
            outcome == Self::named(
                match filename {
                    Some(filename) => Some(filename@),
                    None => None,
                },
            ),
            outcome == match filename {
                None => Err::<(), TransferError>(TransferError::MissingPart),
                Some(filename) => if filename@ == PART_NAME@ {
                    Ok(())
                } else {
                    Err(TransferError::Filename)
                },
            },
    {
        match filename {
            None => Err(TransferError::MissingPart),
            Some(filename) => if same_text(filename, PART_NAME) {
                Ok(())
            } else {
                Err(TransferError::Filename)
            },
        }
    }

    /// Whether some bytes are those that are due.
    pub open spec fn matches_content(self, chunk: Seq<u8>) -> bool {
        forall|i: int|
            0 <= i < chunk.len() ==> #[trigger] chunk[i] == content_at(self.spec_received() + i)
    }

    /// Checks the next bytes. The first wrong byte is reported.
    pub fn chunk(&mut self, chunk: &[u8]) -> (outcome: Result<(), TransferError>)
        requires
            old(self).well_formed(),
        ensures
            old(self).checks(chunk@, *final(self), outcome),
            final(self).well_formed(),
            final(self).spec_length() == old(self).spec_length(),
            final(self).spec_received() == old(self).spec_received() + if outcome is Ok {
                chunk@.len() as int
            } else {
                0
            },
            old(self).spec_received() + chunk@.len() > old(self).spec_length() ==> outcome == Err::<
                (),
                TransferError,
            >(TransferError::TooManyBytes),
            old(self).spec_received() + chunk@.len() <= old(self).spec_length() ==> match outcome {
                Ok(_) => old(self).matches_content(chunk@),
                Err(error) => {
                    &&& error matches TransferError::Mismatch(at)
                    &&& old(self).spec_received() <= at < old(self).spec_received() + chunk@.len()
                    &&& chunk@[at - old(self).spec_received()] != content_at(at as int)
                    &&& old(self).matches_content(chunk@.take(at - old(self).spec_received()))
                },
            },
    {
        if chunk.len() > self.length - self.received {
            return Err(TransferError::TooManyBytes);
        }
        let mut offset: usize = 0;
        while offset < chunk.len()
            invariant
                offset <= chunk.len(),
                *self == *old(self),
                self.well_formed(),
                self.received + chunk.len() <= self.length,
                forall|i: int|
                    0 <= i < offset ==> #[trigger] chunk@[i] == content_at(
                        self.spec_received() + i,
                    ),
            decreases chunk.len() - offset,
        {
            let at: usize = self.received + offset;
            if chunk[offset] != ((at % CHUNK_LEN) % PATTERN_PERIOD) as u8 {
                assert(forall|i: int|
                    0 <= i < offset ==> chunk@.take(offset as int)[i] == chunk@[i]);
                return Err(TransferError::Mismatch(at));
            }
            offset += 1;
        }
        self.received = self.received + chunk.len();
        Ok(())
    }

    /// Ends the check: there is no further part, and all that was asked for came.
    pub fn finish(&self, extra_part: bool) -> (outcome: Result<(), TransferError>)
        ensures
            outcome == self.ends(extra_part),
            outcome == if extra_part {
                Err::<(), TransferError>(TransferError::ExtraPart)
            } else if self.spec_received() != self.spec_length() {
                Err(
                    TransferError::Length {
                        received: self.spec_received(),
                        expected: self.spec_length(),
                    },
                )
            } else {
                Ok(())
            },
    {
        if extra_part {
            return Err(TransferError::ExtraPart);
        }
        if self.received != self.length {
            return Err(
                TransferError::Length { received: self.received, expected: self.length },
            );
        }
        Ok(())
    }
}

/// The byte of a transfer at this offset.
pub open spec fn content_at(at: int) -> u8 {
    ((at % CHUNK_LEN as int) % PATTERN_PERIOD as int) as u8
}

/// How many bytes came of some chunks that were all accepted, and whether they were.
pub open spec fn accepts(length: int, received: int, chunks: Seq<Seq<u8>>) -> bool
    decreases chunks.len(),
{
    chunks.len() == 0 || {
        &&& received + chunks[0].len() <= length
        &&& forall|i: int|
            0 <= i < chunks[0].len() ==> #[trigger] chunks[0][i] == content_at(received + i)
        &&& accepts(length, received + chunks[0].len(), chunks.skip(1))
    }
}

/// However a transfer is cut, the chunks are all accepted and complete exactly if they make
/// up the content that was asked for.
pub proof fn law_check_accepts_the_content(length: nat, chunks: Seq<Seq<u8>>)
    ensures
        accepts(length as int, 0, chunks) && joined(chunks).len() == length <==> joined(chunks)
            == content(CHUNK_LEN as int, length),
{
    lemma_accepts(length as int, 0, chunks);
    let whole = content(CHUNK_LEN as int, length);
    if accepts(length as int, 0, chunks) && joined(chunks).len() == length {
        assert(joined(chunks) =~= whole);
    }
    if joined(chunks) == whole {
        assert(forall|i: int|
            0 <= i < joined(chunks).len() ==> #[trigger] joined(chunks)[i] == content_at(0 + i));
    }
}

proof fn lemma_accepts(length: int, received: int, chunks: Seq<Seq<u8>>)
    requires
        received <= length,
    ensures
        accepts(length, received, chunks) <==> {
            &&& received + joined(chunks).len() <= length
            &&& forall|i: int|
                0 <= i < joined(chunks).len() ==> #[trigger] joined(chunks)[i] == content_at(
                    received + i,
                )
        },
    decreases chunks.len(),
{
    if chunks.len() > 0 {
        let first = chunks[0];
        let rest = joined(chunks.skip(1));
        let all = joined(chunks);
        assert(all == first + rest);
        if received + first.len() <= length {
            lemma_accepts(length, received + first.len(), chunks.skip(1));
            assert(forall|i: int| 0 <= i < first.len() ==> #[trigger] first[i] == all[i]);
            assert(forall|i: int|
                0 <= i < rest.len() ==> #[trigger] rest[i] == all[first.len() + i]);
        }
    }
}

/// Why a download is not what was asked for.
#[derive(Clone, Copy, Debug, PartialEq, Eq, Structural)]
pub enum DownloadError {
    Excess,
    Length,
    Hash,
}

impl DownloadError {
    /// The words that each error is reported with.
    pub open spec fn spec_message(self) -> Seq<char> {
        match self {
            DownloadError::Excess => "download exceeds requested length"@,
            DownloadError::Length => "download length mismatch"@,
            DownloadError::Hash => "download hash mismatch"@,
        }
    }

    /// The words that the error is reported with.
    pub fn message(&self) -> (message: String)
        ensures
            message@ == self.spec_message(),
    {
        match self {
            DownloadError::Excess => "download exceeds requested length".to_owned(),
            DownloadError::Length => "download length mismatch".to_owned(),
            DownloadError::Hash => "download hash mismatch".to_owned(),
        }
    }
}

/// A download that is checked by its length and its digest; the bytes are discarded.
pub struct Download {
    length: u64,
    total: u64,
    hasher: sha2::Sha256,
}

impl Download {
    /// How much was asked for.
    pub closed spec fn spec_length(self) -> u64 {
        self.length
    }

    /// What came, as far as it was accepted.
    pub closed spec fn spec_content(self) -> Seq<u8> {
        absorbed(self.hasher)
    }

    /// What came is counted, and is no more than was asked for.
    pub closed spec fn well_formed(self) -> bool {
        &&& self.total <= self.length
        &&& self.total == absorbed(self.hasher).len()
    }

    /// Begins to check a download of this length.
    pub fn start(length: u64) -> (download: Self)
        ensures
            download.well_formed(),
            download.spec_length() == length,
            download.spec_content() == Seq::<u8>::empty(),
    {
        Download { length, total: 0, hasher: sha256_new() }
    }

    /// How much came.
    pub fn total(&self) -> (total: u64)
        requires
            self.well_formed(),
        ensures
            total == self.spec_content().len(),
            total <= self.spec_length(),
    {
        self.total
    }

    /// What the next bytes come to.
    pub open spec fn takes(
        self,
        chunk: Seq<u8>,
        after: Self,
        outcome: Result<(), DownloadError>,
    ) -> bool {
        &&& after.spec_length() == self.spec_length()
        &&& if self.spec_content().len() + chunk.len() > self.spec_length() {
            &&& outcome == Err::<(), DownloadError>(DownloadError::Excess)
            &&& after.spec_content() == self.spec_content()
        } else {
            &&& outcome is Ok
            &&& after.spec_content() == self.spec_content() + chunk
        }
    }

    /// Whether the progress is reported so many milliseconds after the last report.
    pub open spec fn reports_after(self, since_report: u64) -> bool {
        since_report >= REPORT_INTERVAL || self.spec_content().len() == self.spec_length()
    }

    /// What the end of the download comes to under the digest that was announced.
    pub open spec fn ends(self, hash: Seq<u8>) -> Result<(), DownloadError> {
        if self.spec_content().len() != self.spec_length() {
            Err(DownloadError::Length)
        } else if hash != sha256(self.spec_content()) {
            Err(DownloadError::Hash)
        } else {
            Ok(())
        }
    }

    /// Takes the next bytes. What goes beyond the length is refused.
    pub fn chunk(&mut self, chunk: &[u8]) -> (outcome: Result<(), DownloadError>)
        requires
            old(self).well_formed(),
        ensures
            old(self).takes(chunk@, *final(self), outcome),
            final(self).well_formed(),
            final(self).spec_length() == old(self).spec_length(),
            old(self).spec_content().len() + chunk@.len() > old(self).spec_length() ==> {
                &&& outcome == Err::<(), DownloadError>(DownloadError::Excess)
                &&& final(self).spec_content() == old(self).spec_content()
            },
            old(self).spec_content().len() + chunk@.len() <= old(self).spec_length() ==> {
                &&& outcome is Ok
                &&& final(self).spec_content() == old(self).spec_content() + chunk@
            },
    {
        if chunk.len() as u64 > self.length - self.total {
            return Err(DownloadError::Excess);
        }
        self.total = self.total + chunk.len() as u64;
        sha256_update(&mut self.hasher, chunk);
        Ok(())
    }

    /// Whether the progress is reported: some time after the last report, and at the end.
    pub fn reports(&self, since_report: u64) -> (reports: bool)
        requires
            self.well_formed(),
        ensures
            reports == self.reports_after(since_report),
            reports == (since_report >= REPORT_INTERVAL || self.spec_content().len()
                == self.spec_length()),
    {
        since_report >= REPORT_INTERVAL || self.total == self.length
    }

    /// Ends the check: all that was asked for came, and its digest is the announced one.
    pub fn finish(self, hash: &[u8]) -> (outcome: Result<(), DownloadError>)
        requires
            self.well_formed(),
        ensures
            outcome == self.ends(hash@),
            outcome == if self.spec_content().len() != self.spec_length() {
                Err::<(), DownloadError>(DownloadError::Length)
            } else if hash@ != sha256(self.spec_content()) {
                Err(DownloadError::Hash)
            } else {
                Ok(())
            },
    {
        if self.total != self.length {
            return Err(DownloadError::Length);
        }
        let digest = sha256_finalize(self.hasher);
        if !same_bytes(hash, digest.as_slice()) {
            return Err(DownloadError::Hash);
        }
        Ok(())
    }
}

/// A download whose pieces come as they were sent, under the digest that was announced, is
/// accepted: its length is the one asked for, and its content has that digest.
pub proof fn law_served_download_is_accepted(length: nat, chunk: nat)
    requires
        chunk > 0,
    ensures
        joined(pieces_of(length, chunk)).len() == length,
        sha256(joined(pieces_of(length, chunk))) == sha256(content(chunk as int, length)),
{
    law_pieces_make_the_content(length, chunk);
}

/// Why a size is not one that can be asked for.
#[derive(Clone, Copy, Debug, PartialEq, Eq, Structural)]
pub enum SizeError {
    Parse(ParseError),
    TooLarge,
    Range,
}

impl SizeError {
    /// The words that each error is reported with.
    pub open spec fn spec_message(self) -> Seq<char> {
        match self {
            SizeError::Parse(error) => error.spec_message(),
            SizeError::TooLarge => "size too large"@,
            SizeError::Range => "choose 1 to 16384 KiB"@,
        }
    }

    /// The words that the error is reported with.
    pub fn message(&self) -> (message: String)
        ensures
            message@ == self.spec_message(),
    {
        match self {
            SizeError::Parse(error) => error.message(),
            SizeError::TooLarge => "size too large".to_owned(),
            SizeError::Range => "choose 1 to 16384 KiB".to_owned(),
        }
    }
}

/// The length, in bytes, that a size in kibibytes comes to.
pub open spec fn length_of_size(trimmed: Seq<char>) -> Result<int, SizeError> {
    match parsed(trimmed, u64::MAX as int) {
        Err(error) => Err(SizeError::Parse(error)),
        Ok(size) => if size * 1024 > u64::MAX {
            Err(SizeError::TooLarge)
        } else if 1 <= size * 1024 <= MAX_DOWNLOAD {
            Ok(size * 1024)
        } else {
            Err(SizeError::Range)
        },
    }
}

/// Reads the size of a download, which the user gives in kibibytes.
pub fn download_length(size: &str) -> (outcome: Result<u64, SizeError>)
    ensures
        exists|trimmed: Seq<char>| #[trigger]
            is_trimmed(size@, trimmed) && match length_of_size(trimmed) {
                Ok(length) => outcome matches Ok(given) && given == length,
                Err(error) => outcome == Err::<u64, SizeError>(error),
            },
{
    let trimmed = trim(size);
    assert(is_trimmed(size@, trimmed@));
    let kibibytes: u64 = match parse(trimmed, u64::MAX) {
        Ok(kibibytes) => kibibytes,
        Err(error) => return Err(SizeError::Parse(error)),
    };
    let length: u64 = match kibibytes.checked_mul(1024) {
        Some(length) => length,
        None => return Err(SizeError::TooLarge),
    };
    if !serves(length) {
        return Err(SizeError::Range);
    }
    Ok(length)
}

/// Whether a download of this length is served.
pub fn serves(length: u64) -> (serves: bool)
    ensures
        serves == (1 <= length <= MAX_DOWNLOAD),
{
    1 <= length && length <= MAX_DOWNLOAD
}

} // verus!
