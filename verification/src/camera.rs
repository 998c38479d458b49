//! What is done with the pictures of the camera: packing, sharpening, and looking for a
//! pairing code. The reader of QR codes is handed in: it panics on some pictures that no
//! condition on their pixels tells apart, and only its caller can contain that.
use vstd::prelude::*;

use crate::external::{url_parts, utf8_text};
use crate::page::pairing::CameraFrame;
use crate::relay::target::{link_parts, targets, Invite, Target};

verus! {

/// One out of so many pictures is looked at.
pub const SCAN_EVERY: u64 = 3;

/// The pixels of a picture without what fills up its rows in the camera's buffer, where a
/// row begins every `stride` bytes.
pub open spec fn packed(source: Seq<u8>, width: int, height: int, stride: int) -> Seq<u8> {
    Seq::new(
        (width * height) as nat,
        |i: int| source[(i / width) * stride + i % width],
    )
}

/// Whether the camera's buffer holds every row of the picture.
pub open spec fn holds_rows(source: Seq<u8>, width: int, height: int, stride: int) -> bool {
    height > 0 ==> (height - 1) * stride + width <= source.len()
}

/// Packs the rows of a picture.
pub fn pack(source: &[u8], width: usize, height: usize, stride: usize) -> (luma: Vec<u8>)
    requires
        width * height <= usize::MAX,
        holds_rows(source@, width as int, height as int, stride as int),
    ensures
        luma@ == packed(source@, width as int, height as int, stride as int),
{
    let total: usize = source.len();
    let mut luma: Vec<u8> = Vec::new();
    let mut row: usize = 0;
    proof {
        assert(0 * width == 0) by (nonlinear_arith);
    }
    while row < height
        invariant
            row <= height,
            total == source@.len(),
            holds_rows(source@, width as int, height as int, stride as int),
            luma@.len() == row * width,
            luma@ == packed(source@, width as int, row as int, stride as int),
        decreases height - row,
    {
        let ghost before = luma@;
        assert(0 <= row * stride <= (height - 1) * stride) by (nonlinear_arith)
            requires
                0 <= row < height,
                stride >= 0,
        ;
        let start: usize = row * stride;
        luma.extend_from_slice(&source[start..start + width]);
        proof {
            let next = packed(source@, width as int, row + 1, stride as int);
            assert((row + 1) * width == row * width + width) by (nonlinear_arith);
            assert(width * (row + 1) == (row + 1) * width) by (nonlinear_arith);
            assert(width * row == row * width) by (nonlinear_arith);
            assert(luma@.len() == next.len());
            assert forall|i: int| 0 <= i < next.len() implies luma@[i] == next[i] by {
                if i < before.len() {
                    assert(luma@[i] == before[i]);
                } else {
                    let column = i - row * width;
                    assert(i / (width as int) == row && i % (width as int) == column)
                        by (nonlinear_arith)
                        requires
                            i == row * width + column,
                            0 <= column < width,
                    ;
                    assert(luma@[i] == source@[start + column]);
                }
            }
            assert(luma@ =~= next);
        }
        row += 1;
    }
    luma
}

/// The smallest value of a picture.
pub open spec fn least(luma: Seq<u8>) -> u8
    decreases luma.len(),
{
    if luma.len() <= 1 {
        luma[0]
    } else if least(luma.drop_last()) <= luma.last() {
        least(luma.drop_last())
    } else {
        luma.last()
    }
}

/// The greatest value of a picture.
pub open spec fn greatest(luma: Seq<u8>) -> u8
    decreases luma.len(),
{
    if luma.len() <= 1 {
        luma[0]
    } else if greatest(luma.drop_last()) >= luma.last() {
        greatest(luma.drop_last())
    } else {
        luma.last()
    }
}

/// A picture in black and white: a pixel is white from the middle between the smallest and
/// the greatest value on.
pub open spec fn sharpened(luma: Seq<u8>) -> Seq<u8> {
    luma.map_values(
        |pixel: u8|
            if pixel as int >= (least(luma) as int + greatest(luma) as int) / 2 {
                255u8
            } else {
                0u8
            },
    )
}

/// Makes a picture black and white.
pub fn sharpen(luma: &[u8]) -> (sharp: Vec<u8>)
    requires
        luma@.len() > 0,
    ensures
        sharp@ == sharpened(luma@),
{
    let mut minimum: u8 = luma[0];
    let mut maximum: u8 = luma[0];
    let mut i: usize = 1;
    assert(luma@.take(1)[0] == luma@[0]);
    while i < luma.len()
        invariant
            1 <= i <= luma.len(),
            minimum == least(luma@.take(i as int)),
            maximum == greatest(luma@.take(i as int)),
        decreases luma.len() - i,
    {
        let pixel: u8 = luma[i];
        assert(luma@.take(i + 1).drop_last() =~= luma@.take(i as int));
        if pixel < minimum {
            minimum = pixel;
        }
        if pixel > maximum {
            maximum = pixel;
        }
        i += 1;
    }
    assert(luma@.take(i as int) =~= luma@);
    let threshold: u16 = (minimum as u16 + maximum as u16) / 2;
    let mut sharp: Vec<u8> = Vec::new();
    let mut at: usize = 0;
    while at < luma.len()
        invariant
            at <= luma.len(),
            threshold == (least(luma@) as int + greatest(luma@) as int) / 2,
            sharp@ == sharpened(luma@).take(at as int),
        decreases luma.len() - at,
    {
        let ghost before = sharp@;
        sharp.push(if luma[at] as u16 >= threshold {
            255
        } else {
            0
        });
        assert(sharp@ =~= sharpened(luma@).take(at + 1));
        at += 1;
    }
    assert(sharpened(luma@).take(at as int) =~= sharpened(luma@));
    sharp
}

/// A picture of grey values for the reader of QR codes, and how the reader goes about it:
/// whether it takes more time to find a code, and whether it looks for a light code on a
/// dark ground too.
#[derive(Debug)]
pub struct Picture {
    pub luma: Vec<u8>,
    pub width: usize,
    pub height: usize,
    pub try_harder: bool,
    pub also_inverted: bool,
}

impl Picture {
    /// Whether these grey values are to be looked through for a code of either kind, with
    /// all effort.
    pub open spec fn shows(self, luma: Seq<u8>, width: int, height: int) -> bool {
        &&& self.luma@ == luma
        &&& self.width == width
        &&& self.height == height
        &&& self.try_harder
        &&& self.also_inverted
    }
}

/// What the reader finds on a picture: the bytes of a QR code, where it keeps them, and the
/// text that they stand for.
pub type Reading = Option<(Vec<u8>, String)>;

/// The target is what a reading leads to: the text of the code is a pairing link.
pub open spec fn leads_to<D>(reading: Reading, decode: D, target: Option<Target>) -> bool where
    D: FnOnce(&[u8]) -> Option<Invite>,
 {
    match reading {
        None => target is None,
        Some((_, text)) => targets(link_parts(url_parts(text@)), decode, target),
    }
}

/// The Passport that a reading of a pairing code leads to.
pub fn read_target<D>(reading: Reading, decode: D) -> (target: Option<Target>) where
    D: FnOnce(&[u8]) -> Option<Invite>,

    requires
        forall|bytes: &[u8]| call_requires(decode, (bytes,)),
    ensures
        leads_to(reading, decode, target),
{
    match reading {
        Some((_, text)) => Target::parse(text.as_str(), decode),
        None => None,
    }
}

/// The target is what `read` finds on these grey values leads to.
pub open spec fn target_from<R, D>(
    luma: Seq<u8>,
    width: int,
    height: int,
    read: R,
    decode: D,
    target: Option<Target>,
) -> bool where R: FnOnce(Picture) -> Reading, D: FnOnce(&[u8]) -> Option<Invite> {
    exists|picture: Picture, reading: Reading|
        {
            &&& picture.shows(luma, width, height)
            &&& #[trigger] call_ensures(read, (picture,), reading)
            &&& leads_to(reading, decode, target)
        }
}

/// The pictures of a camera, counted, and whether one of them led to a Passport: that one is
/// the camera's last.
#[derive(Clone, Copy, Debug)]
pub struct Scanner {
    pub produced: u64,
    pub done: bool,
}

impl Scanner {
    /// A camera that has given no picture yet.
    pub fn new() -> (scanner: Self)
        ensures
            scanner.produced == 0,
            !scanner.done,
    {
        Scanner { produced: 0, done: false }
    }

    /// What comes of the next picture.
    pub open spec fn produces<R, D>(
        self,
        source: Seq<u8>,
        width: usize,
        height: usize,
        stride: usize,
        read: R,
        decode: D,
        after: Self,
        frame: CameraFrame,
    ) -> bool where R: FnOnce(Picture) -> Reading, D: FnOnce(&[u8]) -> Option<Invite> {
        let luma = packed(source, width as int, height as int, stride as int);
        &&& after.produced == self.produced + 1
        &&& after.done == (frame.target is Some)
        &&& frame.luma@ == luma
        &&& frame.width == width
        &&& frame.height == height
        &&& if after.produced % SCAN_EVERY == 0 {
            target_from(
                sharpened(luma),
                width as int,
                height as int,
                read,
                decode,
                frame.target,
            )
        } else {
            frame.target is None
        }
    }

    /// Takes the next picture out of the camera's buffer. Every third picture is looked at for
    /// a pairing code, in black and white; a camera whose picture shows one has done its work
    /// and gives no more. `read` is the reader of QR codes; `decode` reads the invitation in
    /// a pairing link.
    pub fn frame<R, D>(
        &mut self,
        source: &[u8],
        width: usize,
        height: usize,
        stride: usize,
        read: R,
        decode: D,
    ) -> (frame: CameraFrame) where
        R: FnOnce(Picture) -> Reading,
        D: FnOnce(&[u8]) -> Option<Invite>,

        requires
            !old(self).done,
            old(self).produced < u64::MAX,
            width * height <= usize::MAX,
            (old(self).produced + 1) % SCAN_EVERY as int == 0 ==> 0 < width * height,
            holds_rows(source@, width as int, height as int, stride as int),
            forall|picture: Picture| call_requires(read, (picture,)),
            forall|bytes: &[u8]| call_requires(decode, (bytes,)),
        ensures
            old(self).produces(source@, width, height, stride, read, decode, *final(self), frame),
            final(self).produced == old(self).produced + 1,
            final(self).done == (frame.target is Some),
            frame.luma@ == packed(source@, width as int, height as int, stride as int),
            frame.width == width,
            frame.height == height,
            final(self).produced % SCAN_EVERY != 0 ==> frame.target is None,
            final(self).produced % SCAN_EVERY == 0 ==> target_from(
                sharpened(packed(source@, width as int, height as int, stride as int)),
                width as int,
                height as int,
                read,
                decode,
                frame.target,
            ),
    {
        let luma = pack(source, width, height, stride);
        self.produced = self.produced + 1;
        let target = if self.produced % SCAN_EVERY == 0 {
            let picture = Picture {
                luma: sharpen(luma.as_slice()),
                width,
                height,
                try_harder: true,
                also_inverted: true,
            };
            let ghost shown = picture;
            let reading = read(picture);
            let ghost seen = reading;
            assert(call_ensures(read, (shown,), seen));
            let target = read_target(reading, decode);
            assert(leads_to(seen, decode, target));
            target
        } else {
            None
        };
        self.done = target.is_some();
        CameraFrame { luma, width, height, target }
    }
}

/// The shorter side of a picture.
pub open spec fn shorter(width: int, height: int) -> int {
    if width < height {
        width
    } else {
        height
    }
}

/// The middle of a picture: every row of it, cut on both sides to the length of the shorter
/// side.
pub open spec fn squared(luma: Seq<u8>, width: int, height: int) -> Seq<u8> {
    let size = shorter(width, height);
    let left = (width - size) / 2;
    Seq::new(
        (size * height) as nat,
        |i: int| luma[(i / size) * width + left + i % size],
    )
}

/// Cuts the middle out of each row of a picture.
pub fn square(luma: &[u8], width: usize, height: usize) -> (middle: Vec<u8>)
    requires
        0 < width,
        0 < height,
        luma@.len() == width * height,
    ensures
        middle@ == squared(luma@, width as int, height as int),
{
    let size: usize = if width < height {
        width
    } else {
        height
    };
    let left: usize = (width - size) / 2;
    assert((height - 1) * width + width == width * height && width <= width * height)
        by (nonlinear_arith)
        requires
            0 < height,
            0 < width,
    ;
    let shifted = &luma[left..luma.len()];
    proof {
        assert(size * height <= width * height) by (nonlinear_arith)
            requires
                size <= width,
                0 < height,
        ;
    }
    let middle = pack(shifted, size, height, width);
    proof {
        let whole = squared(luma@, width as int, height as int);
        assert(middle@.len() == whole.len());
        assert forall|i: int| 0 <= i < whole.len() implies middle@[i] == whole[i] by {
            let row = i / (size as int);
            let column = i % (size as int);
            assert(0 <= row < height && 0 <= column < size && 0 <= row * width) by (nonlinear_arith)
                requires
                    0 <= i < size * height,
                    0 < size,
                    0 < width,
                    row == i / (size as int),
                    column == i % (size as int),
            ;
            assert(row * width <= (height - 1) * width) by (nonlinear_arith)
                requires
                    0 <= row < height,
                    0 < width,
            ;
            assert(shifted@[row * width + column] == luma@[left + row * width + column]);
        }
        assert(middle@ =~= whole);
    }
    middle
}

/// The target is what a reading leads to where the bytes of the symbol count, if the reader
/// kept them, and its text otherwise. Bytes that are not UTF-8 lead nowhere.
pub open spec fn leads_to_by_bytes<D>(reading: Reading, decode: D, target: Option<Target>) -> bool
    where D: FnOnce(&[u8]) -> Option<Invite>
{
    match reading {
        None => target is None,
        Some((raw, text)) => if raw@.len() == 0 {
            targets(link_parts(url_parts(text@)), decode, target)
        } else if vstd::utf8::valid_utf8(raw@) {
            targets(link_parts(url_parts(vstd::utf8::decode_utf8(raw@))), decode, target)
        } else {
            target is None
        },
    }
}

/// The Passport that a reading leads to where the bytes of the symbol count, if the reader
/// kept them, and its text otherwise.
pub fn read_raw_target<D>(reading: Reading, decode: D) -> (target: Option<Target>) where
    D: FnOnce(&[u8]) -> Option<Invite>,

    requires
        forall|bytes: &[u8]| call_requires(decode, (bytes,)),
    ensures
        leads_to_by_bytes(reading, decode, target),
{
    let (raw, text) = match reading {
        Some(reading) => reading,
        None => return None,
    };
    if raw.len() == 0 {
        return Target::parse(text.as_str(), decode);
    }
    match utf8_text(raw.as_slice()) {
        Some(text) => Target::parse(text.as_str(), decode),
        None => None,
    }
}

/// The target is what `read` finds on the middle of these grey values leads to, where the
/// bytes of the code count.
pub open spec fn middle_target<R, D>(
    luma: Seq<u8>,
    width: int,
    height: int,
    read: R,
    decode: D,
    target: Option<Target>,
) -> bool where R: FnOnce(Picture) -> Reading, D: FnOnce(&[u8]) -> Option<Invite> {
    exists|picture: Picture, reading: Reading|
        {
            &&& picture.shows(
                squared(luma, width, height),
                shorter(width, height),
                shorter(width, height),
            )
            &&& #[trigger] call_ensures(read, (picture,), reading)
            &&& leads_to_by_bytes(reading, decode, target)
        }
}

/// Looks for a pairing code in the middle of a picture: the target is what `read`, the
/// reader of QR codes, finds on that middle leads to.
pub fn scan_square<R, D>(
    luma: &[u8],
    width: usize,
    height: usize,
    read: R,
    decode: D,
) -> (target: Option<Target>) where
    R: FnOnce(Picture) -> Reading,
    D: FnOnce(&[u8]) -> Option<Invite>,

    requires
        0 < width,
        0 < height,
        luma@.len() == width * height,
        forall|picture: Picture| call_requires(read, (picture,)),
        forall|bytes: &[u8]| call_requires(decode, (bytes,)),
    ensures
        middle_target(luma@, width as int, height as int, read, decode, target),
        exists|picture: Picture, reading: Reading|
            {
                &&& picture.shows(
                    squared(luma@, width as int, height as int),
                    shorter(width as int, height as int),
                    shorter(width as int, height as int),
                )
                &&& #[trigger] call_ensures(read, (picture,), reading)
                &&& leads_to_by_bytes(reading, decode, target)
            },
{
    let size: usize = if width < height {
        width
    } else {
        height
    };
    let picture = Picture {
        luma: square(luma, width, height),
        width: size,
        height: size,
        try_harder: true,
        also_inverted: true,
    };
    let ghost shown = picture;
    let reading = read(picture);
    let ghost seen = reading;
    assert(call_ensures(read, (shown,), seen));
    let target = read_raw_target(reading, decode);
    assert(leads_to_by_bytes(seen, decode, target));
    target
}

} // verus!
