//! What is promised of the camera's pictures.
use vstd::prelude::*;

use crate::camera::{
    greatest, leads_to, leads_to_by_bytes, least, middle_target, packed, sharpened, shorter,
    squared, target_from, Picture, Reading, Scanner, SCAN_EVERY,
};
use crate::external::url_parts;
use crate::page::pairing::CameraFrame;
use crate::relay::target::{link_parts, targets, Invite, Target};

verus! {

/// Packing keeps every pixel of every row where it stands: the one in column `x` of row `y`
/// is the byte `x` of the row that begins `y` strides into the buffer.
pub proof fn law_packing_keeps_each_pixel(
    source: Seq<u8>,
    width: int,
    height: int,
    stride: int,
    x: int,
    y: int,
)
    requires
        0 <= x < width,
        0 <= y < height,
    ensures
        packed(source, width, height, stride).len() == width * height,
        0 <= y * width + x < width * height,
        packed(source, width, height, stride)[y * width + x] == source[y * stride + x],
{
    assert(0 <= y * width + x < width * height) by (nonlinear_arith)
        requires
            0 <= x < width,
            0 <= y < height,
    ;
    assert((y * width + x) / width == y && (y * width + x) % width == x) by (nonlinear_arith)
        requires
            0 <= x < width,
            0 <= y,
    ;
}

/// The smallest and the greatest value of a picture are values of it, and none lies beyond
/// them.
pub proof fn law_extremes_are_attained(luma: Seq<u8>)
    requires
        luma.len() > 0,
    ensures
        exists|i: int| 0 <= i < luma.len() && luma[i] == least(luma),
        exists|i: int| 0 <= i < luma.len() && luma[i] == greatest(luma),
        forall|i: int| 0 <= i < luma.len() ==> least(luma) <= #[trigger] luma[i] <= greatest(luma),
    decreases luma.len(),
{
    let last = luma.len() - 1;
    if luma.len() == 1 {
        assert(luma[0] == least(luma) && luma[0] == greatest(luma));
    } else {
        let front = luma.drop_last();
        law_extremes_are_attained(front);
        let i = choose|i: int| 0 <= i < front.len() && front[i] == least(front);
        let j = choose|j: int| 0 <= j < front.len() && front[j] == greatest(front);
        assert(luma[i] == front[i] && luma[j] == front[j] && luma[last] == luma.last());
        assert forall|k: int| 0 <= k < luma.len() implies least(luma) <= #[trigger] luma[k]
            <= greatest(luma) by {
            if k < last {
                assert(front[k] == luma[k]);
            }
        }
    }
}

/// Every pixel of a picture becomes white if it is at least half way from the darkest value
/// of the picture to the brightest, and black otherwise, wherever it lies: so pixels of the
/// same value come out the same, and the brightest are white. `darkest` and `brightest` are
/// where such values stand.
pub proof fn law_every_pixel_is_black_or_white(
    luma: Seq<u8>,
    darkest: int,
    brightest: int,
    at: int,
    other: int,
)
    requires
        0 <= darkest < luma.len(),
        0 <= brightest < luma.len(),
        forall|i: int|
            0 <= i < luma.len() ==> luma[darkest] <= #[trigger] luma[i] <= luma[brightest],
        0 <= at < luma.len(),
        0 <= other < luma.len(),
    ensures
        sharpened(luma).len() == luma.len(),
        luma[at] as int >= (luma[darkest] as int + luma[brightest] as int) / 2
            ==> sharpened(luma)[at] == 255,
        (luma[at] as int) < (luma[darkest] as int + luma[brightest] as int) / 2
            ==> sharpened(luma)[at] == 0,
        luma[at] == luma[other] ==> sharpened(luma)[at] == sharpened(luma)[other],
        luma[at] <= luma[other] ==> sharpened(luma)[at] <= sharpened(luma)[other],
        sharpened(luma)[brightest] == 255,
{
    law_extremes_are_attained(luma);
    let i = choose|i: int| 0 <= i < luma.len() && luma[i] == least(luma);
    let j = choose|j: int| 0 <= j < luma.len() && luma[j] == greatest(luma);
    assert(luma[darkest] <= luma[i] && luma[j] <= luma[brightest]);
    assert(least(luma) <= luma[darkest] && luma[brightest] <= greatest(luma));
}

/// The middle of a picture is as wide as the picture's shorter side and keeps every row: the
/// pixel in column `x` of row `y` is the one that stands that far behind half of what is cut
/// off.
pub proof fn law_middle_keeps_each_pixel(luma: Seq<u8>, width: int, height: int, x: int, y: int)
    requires
        0 < width,
        0 < height,
        0 <= x < width,
        0 <= x < height,
        0 <= y < height,
    ensures
        shorter(width, height) == vstd::math::min(width, height),
        squared(luma, width, height).len() == vstd::math::min(width, height) * height,
        0 <= y * vstd::math::min(width, height) + x < squared(luma, width, height).len(),
        squared(luma, width, height)[y * vstd::math::min(width, height) + x] == luma[y * width + (
        width - vstd::math::min(width, height)) / 2 + x],
{
    let size = vstd::math::min(width, height);
    assert(0 <= y * size + x < size * height) by (nonlinear_arith)
        requires
            0 <= x < size,
            0 <= y < height,
    ;
    assert((y * size + x) / size == y && (y * size + x) % size == x) by (nonlinear_arith)
        requires
            0 <= x < size,
            0 <= y,
    ;
}

/// A reading of nothing leads nowhere; any other leads to what its text, as a pairing link,
/// names, whatever the bytes of the code are.
pub proof fn law_reading_counts_by_its_text<D>(
    raw: Vec<u8>,
    text: String,
    decode: D,
    target: Option<Target>,
) where D: FnOnce(&[u8]) -> Option<Invite>
    ensures
        leads_to(None, decode, target) <==> target is None,
        leads_to(Some((raw, text)), decode, target) <==> targets(
            link_parts(url_parts(text@)),
            decode,
            target,
        ),
{
}

/// Where the bytes count, a reading leads to what its bytes name as UTF-8 text, or nowhere if
/// they are none; only where the reader kept no bytes does its text count.
pub proof fn law_reading_counts_by_its_bytes<D>(
    raw: Vec<u8>,
    text: String,
    decode: D,
    target: Option<Target>,
) where D: FnOnce(&[u8]) -> Option<Invite>
    ensures
        leads_to_by_bytes(None, decode, target) <==> target is None,
        raw@.len() == 0 ==> (leads_to_by_bytes(Some((raw, text)), decode, target) <==> targets(
            link_parts(url_parts(text@)),
            decode,
            target,
        )),
        raw@.len() > 0 && vstd::utf8::valid_utf8(raw@) ==> (leads_to_by_bytes(
            Some((raw, text)),
            decode,
            target,
        ) <==> targets(link_parts(url_parts(vstd::utf8::decode_utf8(raw@))), decode, target)),
        raw@.len() > 0 && !vstd::utf8::valid_utf8(raw@) ==> (leads_to_by_bytes(
            Some((raw, text)),
            decode,
            target,
        ) <==> target is None),
{
}

/// What the reader finds on a picture decides alone: where it finds a code on the picture
/// that it is given, with every pixel of it and with both hints set, the target is what that
/// code leads to, and where it finds none there is no target. Every third picture is looked
/// at.
pub proof fn law_found_code_is_taken<R, D>(
    luma: Seq<u8>,
    width: int,
    height: int,
    read: R,
    decode: D,
    reading: Reading,
    target: Option<Target>,
) where R: FnOnce(Picture) -> Reading, D: FnOnce(&[u8]) -> Option<Invite>
    requires
        target_from(luma, width, height, read, decode, target),
        forall|picture: Picture, found: Reading|
            picture.luma@ == luma && picture.width == width && picture.height == height
                && picture.try_harder && picture.also_inverted && #[trigger] call_ensures(
                read,
                (picture,),
                found,
            ) ==> found == reading,
    ensures
        reading is None ==> target is None,
        reading matches Some((_, text)) ==> targets(link_parts(url_parts(text@)), decode, target),
        SCAN_EVERY == 3,
{
}

/// Every third picture is read, whole and in black and white, and the picture that is shown
/// is the camera's own: the reader gets of the pixel in column `x` of row `y` white if it is
/// at least half way from the darkest pixel, at (`dx`, `dy`), to the brightest, at (`bx`,
/// `by`), and black if not, and where it finds a code the camera is done with the target that
/// the code's text leads to.
pub proof fn law_third_picture_is_read<R, D>(
    scanner: Scanner,
    source: Seq<u8>,
    width: usize,
    height: usize,
    stride: usize,
    dx: int,
    dy: int,
    bx: int,
    by: int,
    read: R,
    decode: D,
    reading: Reading,
    after: Scanner,
    frame: CameraFrame,
) where R: FnOnce(Picture) -> Reading, D: FnOnce(&[u8]) -> Option<Invite>
    requires
        (scanner.produced + 1) % 3 == 0,
        scanner.produced < u64::MAX,
        0 <= dx < width && 0 <= dy < height,
        0 <= bx < width && 0 <= by < height,
        forall|x: int, y: int|
            0 <= x < width && 0 <= y < height ==> source[dy * stride + dx] <= #[trigger] source[y
                * stride + x] <= source[by * stride + bx],
        forall|picture: Picture, found: Reading|
            {
                &&& picture.width == width
                &&& picture.height == height
                &&& picture.try_harder
                &&& picture.also_inverted
                &&& picture.luma@.len() == width * height
                &&& forall|i: int|
                    0 <= i < width * height ==> #[trigger] picture.luma@[i] == if (source[(i
                        / width as int) * stride + i % width as int] as int >= (source[dy * stride
                        + dx] as int + source[by * stride + bx] as int) / 2) {
                        255u8
                    } else {
                        0u8
                    }
                &&& #[trigger] call_ensures(read, (picture,), found)
            } ==> found == reading,
        scanner.produces(source, width, height, stride, read, decode, after, frame),
    ensures
        after.produced == scanner.produced + 1,
        frame.luma@.len() == width * height,
        frame.width == width,
        frame.height == height,
        forall|i: int|
            0 <= i < width * height ==> #[trigger] frame.luma@[i] == source[(i / width as int)
                * stride + i % width as int],
        reading is None ==> frame.target is None,
        reading matches Some((_, text)) ==> targets(
            link_parts(url_parts(text@)),
            decode,
            frame.target,
        ),
        after.done == (frame.target is Some),
{
    let w = width as int;
    let h = height as int;
    let s = stride as int;
    let luma = packed(source, w, h, s);
    law_packing_keeps_each_pixel(source, w, h, s, dx, dy);
    law_packing_keeps_each_pixel(source, w, h, s, bx, by);
    let darkest = dy * w + dx;
    let brightest = by * w + bx;
    assert forall|i: int| 0 <= i < luma.len() implies luma[darkest] <= #[trigger] luma[i]
        <= luma[brightest] && luma[i] == source[(i / w) * s + i % w] by {
        assert(0 <= i % w < w && 0 <= i / w < h) by (nonlinear_arith)
            requires
                0 <= i < w * h,
                0 < w,
        ;
        let x = i % w;
        let y = i / w;
        assert(source[dy * s + dx] <= source[y * s + x] <= source[by * s + bx]);
    }
    let (picture, found) = choose|picture: Picture, found: Reading|
        {
            &&& picture.shows(sharpened(luma), w, h)
            &&& #[trigger] call_ensures(read, (picture,), found)
            &&& leads_to(found, decode, frame.target)
        };
    assert(after.produced % 3 == 0);
    assert(target_from(sharpened(luma), w, h, read, decode, frame.target));
    law_every_pixel_is_black_or_white(luma, darkest, brightest, darkest, brightest);
    assert forall|i: int| 0 <= i < width * height implies #[trigger] picture.luma@[i] == if (
    source[(i / width as int) * stride + i % width as int] as int >= (source[dy * stride
        + dx] as int + source[by * stride + bx] as int) / 2) {
        255u8
    } else {
        0u8
    } by {
        law_every_pixel_is_black_or_white(luma, darkest, brightest, i, i);
    }
    assert(found == reading);
}

/// The other pictures are only shown, every pixel of them.
pub proof fn law_other_pictures_are_shown<R, D>(
    scanner: Scanner,
    source: Seq<u8>,
    width: usize,
    height: usize,
    stride: usize,
    read: R,
    decode: D,
    after: Scanner,
    frame: CameraFrame,
) where R: FnOnce(Picture) -> Reading, D: FnOnce(&[u8]) -> Option<Invite>
    requires
        (scanner.produced + 1) % 3 != 0,
        scanner.produced < u64::MAX,
        scanner.produces(source, width, height, stride, read, decode, after, frame),
    ensures
        after.produced == scanner.produced + 1,
        !after.done,
        frame.target is None,
        frame.width == width,
        frame.height == height,
        frame.luma@.len() == width * height,
        forall|i: int|
            0 <= i < width * height ==> #[trigger] frame.luma@[i] == source[(i / width as int)
                * stride + i % width as int],
{
    assert(width * height >= 0) by (nonlinear_arith)
        requires
            width >= 0,
            height >= 0,
    ;
}

/// The middle of a picture is read as it is, as wide as the picture's shorter side: the reader
/// gets every row of it, and the target is what the bytes of the code that it finds lead to,
/// or its text where it kept none.
pub proof fn law_middle_is_read<R, D>(
    luma: Seq<u8>,
    width: int,
    height: int,
    size: int,
    read: R,
    decode: D,
    reading: Reading,
    target: Option<Target>,
) where R: FnOnce(Picture) -> Reading, D: FnOnce(&[u8]) -> Option<Invite>
    requires
        0 < width,
        0 < height,
        size == vstd::math::min(width, height),
        forall|picture: Picture, found: Reading|
            {
                &&& picture.width == size
                &&& picture.height == size
                &&& picture.try_harder
                &&& picture.also_inverted
                &&& picture.luma@.len() == size * height
                &&& forall|i: int|
                    0 <= i < size * height ==> #[trigger] picture.luma@[i] == luma[(i / size)
                        * width + (width - size) / 2 + i % size]
                &&& #[trigger] call_ensures(read, (picture,), found)
            } ==> found == reading,
        middle_target(luma, width, height, read, decode, target),
    ensures
        reading is None ==> target is None,
        reading matches Some((raw, text)) ==> {
            &&& raw@.len() == 0 ==> targets(link_parts(url_parts(text@)), decode, target)
            &&& raw@.len() > 0 && vstd::utf8::valid_utf8(raw@) ==> targets(
                link_parts(url_parts(vstd::utf8::decode_utf8(raw@))),
                decode,
                target,
            )
            &&& raw@.len() > 0 && !vstd::utf8::valid_utf8(raw@) ==> target is None
        },
{
    assert(size * height >= 0) by (nonlinear_arith)
        requires
            size >= 0,
            height >= 0,
    ;
    let (picture, found) = choose|picture: Picture, found: Reading|
        {
            &&& picture.shows(
                squared(luma, width, height),
                shorter(width, height),
                shorter(width, height),
            )
            &&& #[trigger] call_ensures(read, (picture,), found)
            &&& leads_to_by_bytes(found, decode, target)
        };
    assert(call_ensures(read, (picture,), found));
    assert(found == reading);
}

} // verus!
