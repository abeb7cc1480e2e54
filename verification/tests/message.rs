use gnss_reader::message::{
    parse_sbinary_msg309, parse_sbinary_msg_header, parse_sbinary_msg_headerdw,
    parse_ssvsnr_data309, ParseError, SUnionMsgHeader, MSG309_LEN,
};

/// A message whose record `k` has identifier word `0x0100 + k`, status
/// `0x8000 | k`, and SNR bytes `k, k + 1, ..`.
fn sample_message(sync: bool) -> Vec<u8> {
    let mut v = Vec::new();
    if sync {
        v.extend_from_slice(b"$BIN");
    } else {
        v.extend_from_slice(&[0x11, 0x22, 0x33, 0x44]);
    }
    v.extend_from_slice(&309u16.to_le_bytes());
    v.extend_from_slice(&496u16.to_le_bytes());
    v.extend_from_slice(&123456.5f64.to_le_bytes());
    v.extend_from_slice(&2300u16.to_le_bytes());
    v.push(0xfe); // -2
    v.push(1);
    for k in 0..30u16 {
        v.extend_from_slice(&(0x0100 + k).to_le_bytes());
        v.extend_from_slice(&(0x8000 | k).to_le_bytes());
        v.push(45);
        v.push(90);
        v.extend_from_slice(&0b1110_0100_0001_1011u16.to_le_bytes());
        for i in 0..8u8 {
            v.push(k as u8 + i);
        }
    }
    v.extend_from_slice(&0xbeefu16.to_le_bytes());
    v.extend_from_slice(b"\r\n");
    v
}

#[test]
fn message_is_504_bytes() {
    assert_eq!(sample_message(true).len(), MSG309_LEN);
}

#[test]
fn parse_message_with_byte_header() {
    let data = sample_message(true);
    let m = parse_sbinary_msg309(&data).unwrap().0;
    match m.head {
        SUnionMsgHeader::Bytes(h) => {
            assert_eq!(&h.soh, b"$BIN");
            assert_eq!(h.block_id, 309);
            assert_eq!(h.data_length, 496);
        }
        SUnionMsgHeader::DWord(_) => panic!("expected a byte header"),
    }
    assert_eq!(f64::from_bits(m.gps_time_of_week_bits), 123456.5);
    assert_eq!(m.gps_week, 2300);
    assert_eq!(m.utc_time_diff, -2);
    assert_eq!(m.page, 1);
    assert_eq!(m.checksum, 0xbeef);
    assert_eq!(m.calculate_checksum(), 0xbeef);
    assert_eq!(m.crlf, 0x0a0d);
    let r = m.sv_data[3];
    assert_eq!(r.sys_prn_id, 0x0103);
    assert_eq!(r.status, 0x8003);
    assert_eq!(r.elevation, 45);
    assert_eq!(r.azimuth, 90);
    assert_eq!(r.lower2bits_snr, 0b1110_0100_0001_1011);
    // low bit pairs, signal 0 first: 3, 2, 1, 0, 0, 1, 2, 3
    assert_eq!(r.snr8_bits, [4 * 3 + 3, 4 * 4 + 2, 4 * 5 + 1, 4 * 6, 4 * 7, 4 * 8 + 1, 4 * 9 + 2, 4 * 10 + 3]);
    assert_eq!(m.sv_data[29].sys_prn_id, 0x011d);
}

#[test]
fn parse_message_with_word_header() {
    let data = sample_message(false);
    let m = parse_sbinary_msg309(&data).unwrap().0;
    match m.head {
        SUnionMsgHeader::DWord(h) => {
            assert_eq!(h.dword_preamble, 0x4433_2211);
            assert_eq!(h.dword_info, (496u32 << 16) | 309);
        }
        SUnionMsgHeader::Bytes(_) => panic!("expected a word header"),
    }
}

#[test]
fn parse_ignores_trailing_bytes() {
    let data = sample_message(true);
    let mut longer = data.clone();
    longer.extend_from_slice(&[9, 9, 9]);
    let (a, used_a) = parse_sbinary_msg309(&data).unwrap();
    assert_eq!(used_a, 504);
    let (b, used_b) = parse_sbinary_msg309(&longer).unwrap();
    assert_eq!(used_b, 507);
    assert_eq!(a.checksum, b.checksum);
    assert_eq!(a.sv_data[29].snr8_bits, b.sv_data[29].snr8_bits);
}

#[test]
fn parse_short_inputs_fail() {
    let data = sample_message(true);
    assert_eq!(parse_sbinary_msg309(&data[..0]).unwrap_err(), ParseError::NotEnoughDataForUnion);
    assert_eq!(parse_sbinary_msg309(&data[..7]).unwrap_err(), ParseError::NotEnoughDataForUnion);
    assert_eq!(parse_sbinary_msg309(&data[..8]).unwrap_err(), ParseError::UnexpectedEof);
    assert_eq!(parse_sbinary_msg309(&data[..100]).unwrap_err(), ParseError::UnexpectedEof);
    assert_eq!(parse_sbinary_msg309(&data[..503]).unwrap_err(), ParseError::UnexpectedEof);
    assert!(parse_sbinary_msg309(&data[..504]).is_ok());
}

#[test]
fn parse_header_parts() {
    let data = sample_message(true);
    let (h, next) = parse_sbinary_msg_header(&data, 0).unwrap();
    assert_eq!(next, 8);
    assert_eq!(h.block_id, 309);
    assert_eq!(parse_sbinary_msg_header(&data, 500).unwrap_err(), ParseError::UnexpectedEof);
    let (w, next) = parse_sbinary_msg_headerdw(&data, 8).unwrap();
    assert_eq!(next, 16);
    assert_eq!(((w.dword_info as u64) << 32) | w.dword_preamble as u64, 123456.5f64.to_bits());
    assert_eq!(parse_sbinary_msg_headerdw(&data, 497).unwrap_err(), ParseError::UnexpectedEof);
    assert_eq!(parse_sbinary_msg_headerdw(&data, 600).unwrap_err(), ParseError::UnexpectedEof);
}

#[test]
fn parse_record_at_offset() {
    let data = sample_message(true);
    let (r, next) = parse_ssvsnr_data309(&data, 20).unwrap();
    assert_eq!(next, 36);
    assert_eq!(r.sys_prn_id, 0x0100);
    assert_eq!(r.snr8_bits[0], 3);
    assert_eq!(parse_ssvsnr_data309(&data, 489).unwrap_err(), ParseError::UnexpectedEof);
    assert!(parse_ssvsnr_data309(&data, 488).is_ok());
}

#[test]
fn parse_record_signed_elevation() {
    let mut data = vec![0u8; 16];
    data[4] = 0xf6;
    data[8] = 255;
    data[6] = 0x03;
    let (r, _) = parse_ssvsnr_data309(&data, 0).unwrap();
    assert_eq!(r.elevation, -10);
    assert_eq!(r.snr8_bits[0], 1023);
}
