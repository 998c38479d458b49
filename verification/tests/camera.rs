use ql_lab::camera::{
    pack, read_raw_target, read_target, scan_square, sharpen, square, Picture, Reading, Scanner,
};
use ql_lab::qid::Qid;
use ql_lab::relay::target::Invite;

const LINK: &str = "https://qr.foundation.xyz/?p=AA&k=0102";

fn invite(bytes: &[u8]) -> Option<Invite> {
    Some(Invite { qid: Qid { bytes: vec![bytes[0]] }, encoded: bytes.to_vec() })
}

fn read(picture: Picture) -> Reading {
    let mut hints = rxing::DecodeHints::default();
    hints.PossibleFormats = Some([rxing::BarcodeFormat::QR_CODE].into());
    hints.TryHarder = Some(picture.try_harder);
    hints.AlsoInverted = Some(picture.also_inverted);
    let mut reader = rxing::MultiFormatReader::default();
    reader.set_hints(&hints);
    let (width, height) = (picture.width as u32, picture.height as u32);
    let source = rxing::Luma8LuminanceSource::new(picture.luma, width, height);
    let binarizer = rxing::common::HybridBinarizer::new(source);
    let found = reader.decode_with_state(&mut rxing::BinaryBitmap::new(binarizer)).ok()?;
    Some((found.getRawBytes().to_vec(), found.getText().to_owned()))
}

/// A picture of a code, with four pixels a module and four modules around it.
fn picture(text: &str) -> (Vec<u8>, usize) {
    let code = qrcode::QrCode::new(text).unwrap();
    let side = (code.width() + 8) * 4;
    let mut luma = vec![200; side * side];
    for y in 0..code.width() {
        for x in 0..code.width() {
            if code[(x, y)] == qrcode::Color::Dark {
                for dy in 0..4 {
                    for dx in 0..4 {
                        luma[((y + 4) * 4 + dy) * side + (x + 4) * 4 + dx] = 40;
                    }
                }
            }
        }
    }
    (luma, side)
}

#[test]
fn rows_are_packed() {
    let source = [1, 2, 3, 0, 4, 5, 6, 0, 7, 8, 9];
    assert_eq!(pack(&source, 3, 3, 4), vec![1, 2, 3, 4, 5, 6, 7, 8, 9]);
    assert_eq!(pack(&source, 3, 0, 4), Vec::<u8>::new());
}

#[test]
fn pictures_are_made_black_and_white_at_the_middle() {
    assert_eq!(sharpen(&[10, 20, 15, 14]), vec![0, 255, 255, 0]);
    assert_eq!(sharpen(&[7]), vec![255]);
    assert_eq!(sharpen(&[0, 255, 127, 126]), vec![0, 255, 255, 0]);
}

#[test]
fn middle_of_a_picture_is_cut_out() {
    let luma: Vec<u8> = (0..10).collect();
    assert_eq!(square(&luma, 5, 2), vec![1, 2, 6, 7]);
    assert_eq!(square(&luma, 2, 5), luma);
}

#[test]
fn every_third_picture_is_scanned() {
    let (luma, side) = picture(LINK);
    let mut scanner = Scanner::new();
    for produced in 1..=3 {
        assert!(!scanner.done);
        let frame = scanner.frame(&luma, side, side, side, read, invite);
        assert_eq!(frame.luma, luma);
        assert_eq!((frame.width, frame.height), (side, side));
        assert_eq!(frame.target.is_some(), produced % 3 == 0);
        assert_eq!(scanner.produced, produced);
        if let Some(target) = frame.target {
            assert_eq!(target.address, "AA");
            assert_eq!(target.invite.encoded, vec![1, 2]);
        }
    }
    // the picture that led to a Passport is the last
    assert!(scanner.done);
    // a code that is no pairing link is passed over
    let (luma, side) = picture("hello");
    let mut scanner = Scanner { produced: 2, done: false };
    for produced in 3..=6 {
        assert!(scanner.frame(&luma, side, side, side, read, invite).target.is_none());
        assert_eq!((scanner.produced, scanner.done), (produced, false));
    }
}

#[test]
fn readings_lead_to_a_passport() {
    let reading = |raw: &[u8], text: &str| Some((raw.to_vec(), text.to_owned()));
    assert!(read_target(None, invite).is_none());
    assert!(read_target(reading(b"x", "hello"), invite).is_none());
    assert_eq!(read_target(reading(b"x", LINK), invite).unwrap().address, "AA");

    assert!(read_raw_target(None, invite).is_none());
    assert_eq!(read_raw_target(reading(b"", LINK), invite).unwrap().address, "AA");
    let other = "https://qr.foundation.xyz/?p=B&k=09";
    assert_eq!(read_raw_target(reading(other.as_bytes(), LINK), invite).unwrap().address, "B");
    assert!(read_raw_target(reading(&[0xff], LINK), invite).is_none());
}

#[test]
fn nothing_is_found_on_a_blank_picture() {
    assert!(scan_square(&[128; 60 * 50], 60, 50, read, invite).is_none());
}

#[test]
fn light_codes_on_a_dark_ground_are_found() {
    let (luma, side) = picture(LINK);
    let luma: Vec<u8> = luma.iter().map(|pixel| 255 - pixel).collect();
    let mut scanner = Scanner { produced: 2, done: false };
    let frame = scanner.frame(&luma, side, side, side, read, invite);
    assert_eq!(frame.luma, luma);
    assert_eq!(frame.target.unwrap().address, "AA");
}

#[test]
fn reader_gets_the_picture_in_black_and_white() {
    // rows of two pixels, four bytes apart
    let source = [10, 20, 0, 0, 15, 14, 0, 0];
    let mut scanner = Scanner { produced: 5, done: false };
    let frame = scanner.frame(
        &source,
        2,
        2,
        4,
        |picture: Picture| {
            assert_eq!(picture.luma, vec![0, 255, 255, 0]);
            assert_eq!((picture.width, picture.height), (2, 2));
            assert!(picture.try_harder && picture.also_inverted);
            Some((vec![], LINK.to_owned()))
        },
        invite,
    );
    assert_eq!(frame.luma, vec![10, 20, 15, 14]);
    assert_eq!(frame.target.unwrap().address, "AA");
    // the other pictures are not looked at
    let mut scanner = Scanner::new();
    let unread = |_: Picture| -> Reading { panic!("looked at") };
    assert!(scanner.frame(&source, 2, 2, 4, unread, invite).target.is_none());
    assert!(scanner.frame(&[], 0, 0, 0, unread, invite).target.is_none());
}

#[test]
fn reader_gets_the_middle_of_the_picture() {
    let luma: Vec<u8> = (0..10).collect();
    let target = scan_square(
        &luma,
        5,
        2,
        |picture: Picture| {
            assert_eq!(picture.luma, vec![1, 2, 6, 7]);
            assert_eq!((picture.width, picture.height), (2, 2));
            assert!(picture.try_harder && picture.also_inverted);
            Some((LINK.as_bytes().to_vec(), "hello".to_owned()))
        },
        invite,
    );
    assert_eq!(target.unwrap().address, "AA");
    let nothing = |_: Picture| -> Reading { None };
    assert!(scan_square(&luma, 2, 5, nothing, invite).is_none());
}
