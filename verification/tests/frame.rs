use gnss_reader::message::{parse_sbinary_msg309, SUnionMsgHeader};
use gnss_reader::frame::{extract_frame, find_first, frame_checksum, FrameError};

#[test]
fn frame_from_sync_to_line_end() {
    let buf = b"xx$BIN\x01\x02\x03\r\nyy\r\n";
    let f = extract_frame(buf).unwrap();
    assert_eq!(f, b"$BIN\x01\x02\x03\r\n".to_vec());
}

#[test]
fn frame_errors() {
    assert_eq!(extract_frame(b"abc\r\n").unwrap_err(), FrameError::NoSync);
    assert_eq!(extract_frame(b"$BIN abc").unwrap_err(), FrameError::NoLineEnd);
    assert_eq!(extract_frame(b"\r\nab$BIN").unwrap_err(), FrameError::SyncAfterLineEnd);
}

#[test]
fn frame_empty_when_sync_follows_line_end() {
    let f = extract_frame(b"\r\n$BIN").unwrap();
    assert!(f.is_empty());
}

#[test]
fn first_occurrence() {
    assert_eq!(find_first(b"ababab", b"bab"), Some(1));
    assert_eq!(find_first(b"ab", b"abc"), None);
    assert_eq!(find_first(b"aaa", b"b"), None);
    assert_eq!(find_first(b"xyz", b"z"), Some(2));
}

#[test]
fn checksum_of_frame() {
    assert_eq!(frame_checksum(&[1, 2, 3, 9, 9, 9, 9]), Ok(6));
    assert_eq!(frame_checksum(&[200, 9, 9, 9, 9]), Ok(200));
    assert_eq!(frame_checksum(&[1, 2, 3, 4]), Err(FrameError::TooShort));
    assert_eq!(frame_checksum(&[]), Err(FrameError::TooShort));
    let big = vec![255u8; 300];
    assert_eq!(frame_checksum(&big), Err(FrameError::ChecksumOverflow));
    let fits = vec![255u8; 261];
    assert_eq!(frame_checksum(&fits), Ok(257 * 255));
}

#[test]
fn extracted_frame_parses_with_byte_header() {
    let mut buf = vec![0xaa, 0xbb];
    buf.extend_from_slice(b"$BIN");
    buf.extend_from_slice(&[0u8; 498]);
    buf.extend_from_slice(b"\r\n");
    buf.extend_from_slice(&[1, 2, 3]);
    let f = extract_frame(&buf).unwrap();
    assert_eq!(f.len(), 504);
    assert_eq!(&f[..4], b"$BIN");
    assert_eq!(&f[502..], b"\r\n");
    let (m, consumed) = parse_sbinary_msg309(&f).unwrap();
    assert_eq!(consumed, 504);
    assert!(matches!(m.head, SUnionMsgHeader::Bytes(_)));
    assert_eq!(m.crlf, 0x0a0d);
}
