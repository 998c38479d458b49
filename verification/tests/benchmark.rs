use ql_lab::benchmark::{
    content_hash, download_length, pattern, serves, Download, DownloadError, Pieces, SizeError,
    TransferCheck, TransferError, CHUNK_LEN, LARGE_CHUNK_LEN, MAX_DOWNLOAD,
};
use ql_lab::text::ParseError;
use sha2::{Digest, Sha256};

fn content(length: u64, chunk: usize) -> Vec<u8> {
    let mut pieces = Pieces::new(length, chunk);
    let mut bytes = Vec::new();
    while let Some(piece) = pieces.next() {
        assert!(piece.len() <= chunk);
        bytes.extend_from_slice(piece);
    }
    assert!(pieces.next().is_none());
    bytes
}

#[test]
fn pattern_starts_anew_with_each_piece() {
    let bytes = pattern(CHUNK_LEN);
    assert_eq!(bytes[0], 0);
    assert_eq!(bytes[250], 250);
    assert_eq!(bytes[251], 0);
    let bytes = content(10_000, CHUNK_LEN);
    assert_eq!(bytes.len(), 10_000);
    for (at, byte) in bytes.iter().enumerate() {
        assert_eq!(*byte, ((at % 4096) % 251) as u8);
    }
    assert!(content(0, CHUNK_LEN).is_empty());
    let bytes = content(40_000, LARGE_CHUNK_LEN);
    assert_eq!(bytes[32767], (32767 % 251) as u8);
    assert_eq!(bytes[32768], 0);
}

#[test]
fn announced_digest_is_that_of_the_content() {
    for (length, chunk) in [(0, CHUNK_LEN), (1, CHUNK_LEN), (9_000, CHUNK_LEN), (70_000, 32768)] {
        let expected = Sha256::digest(content(length, chunk)).to_vec();
        assert_eq!(content_hash(length, chunk), expected);
    }
}

#[test]
fn transfers_are_checked_byte_by_byte() {
    let bytes = content(9_000, CHUNK_LEN);
    let mut check = TransferCheck::start(9_000, "9000").unwrap();
    check.part(Some("pattern.bin")).unwrap();
    for chunk in bytes.chunks(1_000) {
        check.chunk(chunk).unwrap();
    }
    check.finish(false).unwrap();
    assert_eq!(check.finish(true), Err(TransferError::ExtraPart));
}

#[test]
fn transfer_errors_are_reported() {
    let error = TransferCheck::start(9, "09").unwrap_err();
    assert_eq!(error.message(), "incorrect transfer length header");
    let mut check = TransferCheck::start(9, "9").unwrap();
    assert_eq!(check.part(None).unwrap_err().message(), "missing byte part");
    assert_eq!(check.part(Some("x")).unwrap_err().message(), "unexpected filename");
    assert_eq!(check.chunk(&[0; 10]).unwrap_err().message(), "too many bytes");
    check.chunk(&[0, 1, 2]).unwrap();
    assert_eq!(check.chunk(&[3, 4, 9, 9]).unwrap_err().message(), "byte mismatch at 5");
    let error = check.finish(false).unwrap_err();
    assert_eq!(error.message(), "received 3 bytes, expected 9");
    assert_eq!(check.finish(true).unwrap_err().message(), "unexpected extra part");
}

#[test]
fn downloads_are_checked_by_length_and_digest() {
    let bytes = content(5_000, LARGE_CHUNK_LEN);
    let hash = content_hash(5_000, LARGE_CHUNK_LEN);
    let mut download = Download::start(5_000);
    for chunk in bytes.chunks(777) {
        assert!(!download.reports(249));
        assert!(download.reports(250));
        download.chunk(chunk).unwrap();
    }
    assert_eq!(download.total(), 5_000);
    assert!(download.reports(0));
    assert_eq!(download.chunk(&[0]), Err(DownloadError::Excess));
    download.finish(&hash).unwrap();

    let mut download = Download::start(5_000);
    download.chunk(&bytes[..4_999]).unwrap();
    assert_eq!(download.finish(&hash), Err(DownloadError::Length));
    let mut download = Download::start(5_000);
    download.chunk(&bytes).unwrap();
    assert_eq!(download.finish(&hash[..31]), Err(DownloadError::Hash));
    assert_eq!(DownloadError::Excess.message(), "download exceeds requested length");
    assert_eq!(DownloadError::Length.message(), "download length mismatch");
    assert_eq!(DownloadError::Hash.message(), "download hash mismatch");
}

#[test]
fn sizes_are_read_in_kibibytes() {
    assert_eq!(download_length(" 256\n"), Ok(262_144));
    assert_eq!(download_length("+1"), Ok(1024));
    assert_eq!(download_length("16384"), Ok(MAX_DOWNLOAD));
    assert_eq!(download_length("16385"), Err(SizeError::Range));
    assert_eq!(download_length("0"), Err(SizeError::Range));
    assert_eq!(download_length(""), Err(SizeError::Parse(ParseError::Empty)));
    assert_eq!(download_length("1 2"), Err(SizeError::Parse(ParseError::InvalidDigit)));
    assert_eq!(download_length("18446744073709551615"), Err(SizeError::TooLarge));
    let error = download_length("18446744073709551616").unwrap_err();
    assert_eq!(error.message(), "number too large to fit in target type");
    assert_eq!(SizeError::TooLarge.message(), "size too large");
    assert_eq!(SizeError::Range.message(), "choose 1 to 16384 KiB");
}

#[test]
fn served_downloads_are_limited() {
    assert!(!serves(0));
    assert!(serves(1));
    assert!(serves(16 * 1024 * 1024));
    assert!(!serves(16 * 1024 * 1024 + 1));
}
