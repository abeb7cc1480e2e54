//! The binary message 309 (satellite SNR report) and its parser.
//!
//! A message is 504 bytes, all integers little-endian:
//!
//! | offset | size | field |
//! |---|---|---|
//! | 0 | 8 | header: `$BIN`, block id, data length; or two 32-bit words |
//! | 8 | 8 | GPS time of week (IEEE-754 double) |
//! | 16 | 2 | GPS week |
//! | 18 | 1 | UTC time difference (signed) |
//! | 19 | 1 | page |
//! | 20 | 30 × 16 | one record per satellite channel |
//! | 500 | 2 | checksum |
//! | 502 | 2 | carriage return, line feed |
use crate::wire::{le_u16, le_u32, le_u64, read_u16_le, read_u32_le, read_u64_le};
use vstd::prelude::*;

verus! {

/// Size of the fixed header that opens every binary message.
pub const HEADER_LEN: usize = 8;

/// Size of one satellite channel record.
pub const SV_RECORD_LEN: usize = 16;

/// Number of satellite channel records in a message.
pub const SV_RECORDS: usize = 30;

/// Offset of the first satellite channel record.
pub const SV_RECORDS_OFFSET: usize = 20;

/// Size of a whole message.
pub const MSG309_LEN: usize = 504;

/// Why a message could not be read.
#[derive(Debug, Clone, Copy, PartialEq, Eq, Structural)]
pub enum ParseError {
    /// Fewer than eight bytes were left where the header starts.
    NotEnoughDataForUnion,
    /// The input ended inside a field.
    UnexpectedEof,
}

/// The header of a message that starts with the `$BIN` sync bytes.
#[derive(Debug, Clone, Copy)]
pub struct SBinaryMsgHeader {
    pub soh: [u8; 4],
    pub block_id: u16,
    pub data_length: u16,
}

/// The same eight header bytes read as two 32-bit words.
#[derive(Debug, Clone, Copy)]
pub struct SBinaryMsgHeaderDW {
    pub dword_preamble: u32,
    pub dword_info: u32,
}

/// The header of a message: as bytes when it starts with `$BIN`, as two
/// words otherwise.
#[derive(Debug, Clone, Copy)]
pub enum SUnionMsgHeader {
    Bytes(SBinaryMsgHeader),
    DWord(SBinaryMsgHeaderDW),
}

/// One satellite channel record.
#[derive(Debug, Clone, Copy)]
pub struct SSVSNRData309 {
    /// Bits 0-5: PRN, bits 7-10: satellite system, bits 11-15: spare.
    pub sys_prn_id: u16,
    /// Lock, ephemeris, health and use flags.
    pub status: u16,
    /// Elevation in degrees.
    pub elevation: i8,
    /// Azimuth in units of two degrees.
    pub azimuth: u8,
    /// The two low bits of the SNR of each of the eight signals.
    pub lower2bits_snr: u16,
    /// The SNR of each signal: four times the transmitted byte plus its two
    /// low bits.
    pub snr8_bits: [u32; 8],
}

/// A whole message 309. The GPS time of week is kept as the bits of the
/// transmitted IEEE-754 double.
#[derive(Debug, Clone, Copy)]
pub struct SBinaryMsg309 {
    pub head: SUnionMsgHeader,
    pub gps_time_of_week_bits: u64,
    pub gps_week: u16,
    pub utc_time_diff: i8,
    pub page: u8,
    pub sv_data: [SSVSNRData309; 30],
    pub checksum: u16,
    pub crlf: u16,
}

/// The sync bytes `$BIN` that open a binary message.
pub open spec fn bin_sync() -> Seq<u8> {
    seq![0x24u8, 0x42u8, 0x49u8, 0x4eu8]
}

/// `s[p..]` begins with the `$BIN` sync bytes.
pub open spec fn has_bin_sync_at(s: Seq<u8>, p: int) -> bool {
    0 <= p && p + 4 <= s.len() && s.subrange(p, p + 4) == bin_sync()
}

/// The two bits `2i` and `2i + 1` of `x`.
pub open spec fn bit_pair(x: u16, i: int) -> u16 {
    (x >> (2 * i) as u16) & 3u16
}

/// `h` is the byte header stored at `s[p..p + 8]`.
pub open spec fn is_header_at(h: SBinaryMsgHeader, s: Seq<u8>, p: int) -> bool {
    &&& h.soh@ == s.subrange(p, p + 4)
    &&& h.block_id == le_u16(s, p + 4)
    &&& h.data_length == le_u16(s, p + 6)
}

/// `h` is the two-word header stored at `s[p..p + 8]`.
pub open spec fn is_header_dw_at(h: SBinaryMsgHeaderDW, s: Seq<u8>, p: int) -> bool {
    &&& h.dword_preamble == le_u32(s, p)
    &&& h.dword_info == le_u32(s, p + 4)
}

/// `r` is the satellite channel record stored at `s[p..p + 16]`.
pub open spec fn is_sv_data_at(r: SSVSNRData309, s: Seq<u8>, p: int) -> bool {
    &&& r.sys_prn_id == le_u16(s, p)
    &&& r.status == le_u16(s, p + 2)
    &&& r.elevation == s[p + 4] as i8
    &&& r.azimuth == s[p + 5]
    &&& r.lower2bits_snr == le_u16(s, p + 6)
    &&& forall|i: int|
        0 <= i < 8 ==> #[trigger] r.snr8_bits@[i] == 4 * s[p + 8 + i] + bit_pair(
            r.lower2bits_snr,
            i,
        )
}

/// `m` is the message stored at the start of `s`: the header read as bytes
/// exactly when `s` starts with `$BIN`.
pub open spec fn is_msg309_of(m: SBinaryMsg309, s: Seq<u8>) -> bool {
    &&& match m.head {
        SUnionMsgHeader::Bytes(h) => has_bin_sync_at(s, 0) && is_header_at(h, s, 0),
        SUnionMsgHeader::DWord(h) => !has_bin_sync_at(s, 0) && is_header_dw_at(h, s, 0),
    }
    &&& m.gps_time_of_week_bits == le_u64(s, 8)
    &&& m.gps_week == le_u16(s, 16)
    &&& m.utc_time_diff == s[18] as i8
    &&& m.page == s[19]
    &&& forall|k: int|
        0 <= k < 30 ==> is_sv_data_at(#[trigger] m.sv_data@[k], s, 20 + 16 * k)
    &&& m.checksum == le_u16(s, 500)
    &&& m.crlf == le_u16(s, 502)
}

/// Reads the byte header at `data[pos..pos + 8]`.
pub fn parse_sbinary_msg_header(data: &[u8], pos: usize) -> (r: Result<
    (SBinaryMsgHeader, usize),
    ParseError,
>)
    ensures
        pos + 8 <= data@.len() ==> (r matches Ok((h, next)) && next == pos + 8 && is_header_at(
            h,
            data@,
            pos as int,
        )),
        pos + 8 > data@.len() ==> r == Err::<(SBinaryMsgHeader, usize), _>(
            ParseError::UnexpectedEof,
        ),
{
    if pos > data.len() || data.len() - pos < 8 {
        return Err(ParseError::UnexpectedEof);
    }
    let mut soh = [0u8; 4];
    soh[0] = data[pos];
    soh[1] = data[pos + 1];
    soh[2] = data[pos + 2];
    soh[3] = data[pos + 3];
    let block_id = read_u16_le(data, pos + 4);
    let data_length = read_u16_le(data, pos + 6);
    assert(soh@ =~= data@.subrange(pos as int, pos + 4));
    Ok((SBinaryMsgHeader { soh, block_id, data_length }, pos + 8))
}


/// Reads the two-word header at `data[pos..pos + 8]`.
pub fn parse_sbinary_msg_headerdw(data: &[u8], pos: usize) -> (r: Result<
    (SBinaryMsgHeaderDW, usize),
    ParseError,
>)
    ensures
        pos + 8 <= data@.len() ==> (r matches Ok((h, next)) && next == pos + 8
            && is_header_dw_at(h, data@, pos as int)),
        pos + 8 > data@.len() ==> r == Err::<(SBinaryMsgHeaderDW, usize), _>(
            ParseError::UnexpectedEof,
        ),
{
    if pos > data.len() || data.len() - pos < 8 {
        return Err(ParseError::UnexpectedEof);
    }
    let dword_preamble = read_u32_le(data, pos);
    let dword_info = read_u32_le(data, pos + 4);
    Ok((SBinaryMsgHeaderDW { dword_preamble, dword_info }, pos + 8))
}

/// The SNR of signal `i`: four times its transmitted byte plus its two low
/// bits from `lower2bits`.
fn snr8_value(byte: u8, lower2bits: u16, i: u16) -> (r: u32)
    requires
        i < 8,
    ensures
        r == 4 * byte + bit_pair(lower2bits, i as int),
        r < 1024,
{
    let two: u16 = (lower2bits >> (2 * i)) & 0x3;
    assert(two <= 3) by (bit_vector)
        requires
            two == (lower2bits >> (2 * i)) & 0x3,
    ;
    let wide: u32 = byte as u32;
    assert((wide << 2u32) == 4 * wide) by (bit_vector)
        requires
            wide < 256,
    ;
    (wide << 2) + two as u32
}

/// Reads the satellite channel record at `data[pos..pos + 16]`.
pub fn parse_ssvsnr_data309(data: &[u8], pos: usize) -> (r: Result<
    (SSVSNRData309, usize),
    ParseError,
>)
    ensures
        pos + 16 <= data@.len() ==> (r matches Ok((d, next)) && next == pos + 16
            && is_sv_data_at(d, data@, pos as int)),
        pos + 16 > data@.len() ==> r == Err::<(SSVSNRData309, usize), _>(
            ParseError::UnexpectedEof,
        ),
{
    if pos > data.len() || data.len() - pos < 16 {
        return Err(ParseError::UnexpectedEof);
    }
    let sys_prn_id = read_u16_le(data, pos);
    let status = read_u16_le(data, pos + 2);
    let elevation = #[verifier::truncate] (data[pos + 4] as i8);
    let azimuth = data[pos + 5];
    let lower2bits_snr = read_u16_le(data, pos + 6);
    let mut snr8_bits = [0u32; 8];
    let mut i: u16 = 0;
    while i < 8
        invariant
            i <= 8,
            pos + 16 <= data.len(),
            forall|j: int|
                0 <= j < i ==> #[trigger] snr8_bits@[j] == 4 * data@[pos + 8 + j] + bit_pair(
                    lower2bits_snr,
                    j,
                ),
        decreases 8 - i,
    {
        let v = snr8_value(data[pos + 8 + i as usize], lower2bits_snr, i);
        snr8_bits[i as usize] = v;
        i = i + 1;
    }
    let d = SSVSNRData309 { sys_prn_id, status, elevation, azimuth, lower2bits_snr, snr8_bits };
    Ok((d, pos + 16))
}


/// `data[0..4]` is `$BIN`.
fn starts_with_bin(data: &[u8]) -> (r: bool)
    requires
        4 <= data@.len(),
    ensures
        r == has_bin_sync_at(data@, 0),
{
    let r = data[0] == 0x24 && data[1] == 0x42 && data[2] == 0x49 && data[3] == 0x4e;
    assert(r ==> data@.subrange(0, 4) =~= bin_sync());
    r
}

/// Reads a message 309 from the start of `data`, then consumes and discards
/// whatever follows its 504 bytes; on success it returns the message and the
/// number of bytes consumed, which is all of `data`. The header is read as
/// bytes when `data` starts with `$BIN`, as two words otherwise.
pub fn parse_sbinary_msg309(data: &[u8]) -> (r: Result<(SBinaryMsg309, usize), ParseError>)
    ensures
        data@.len() < 8 ==> r == Err::<(SBinaryMsg309, usize), _>(
            ParseError::NotEnoughDataForUnion,
        ),
        8 <= data@.len() < 504 ==> r == Err::<(SBinaryMsg309, usize), _>(
            ParseError::UnexpectedEof,
        ),
        504 <= data@.len() ==> (r matches Ok((m, consumed)) && is_msg309_of(m, data@)
            && consumed == data@.len()),
{
    if data.len() < HEADER_LEN {
        return Err(ParseError::NotEnoughDataForUnion);
    }
    let head = if starts_with_bin(data) {
        match parse_sbinary_msg_header(data, 0) {
            Ok((h, _)) => SUnionMsgHeader::Bytes(h),
            Err(e) => return Err(e),
        }
    } else {
        match parse_sbinary_msg_headerdw(data, 0) {
            Ok((h, _)) => SUnionMsgHeader::DWord(h),
            Err(e) => return Err(e),
        }
    };
    if data.len() < 16 {
        return Err(ParseError::UnexpectedEof);
    }
    let gps_time_of_week_bits = read_u64_le(data, 8);
    if data.len() < 18 {
        return Err(ParseError::UnexpectedEof);
    }
    let gps_week = read_u16_le(data, 16);
    if data.len() < 19 {
        return Err(ParseError::UnexpectedEof);
    }
    let utc_time_diff = #[verifier::truncate] (data[18] as i8);
    if data.len() < 20 {
        return Err(ParseError::UnexpectedEof);
    }
    let page = data[19];
    let blank = SSVSNRData309 {
        sys_prn_id: 0,
        status: 0,
        elevation: 0,
        azimuth: 0,
        lower2bits_snr: 0,
        snr8_bits: [0u32; 8],
    };
    let mut sv_data = [blank; 30];
    let mut pos: usize = SV_RECORDS_OFFSET;
    let mut k: usize = 0;
    while k < SV_RECORDS
        invariant
            k <= 30,
            pos == 20 + 16 * k,
            20 + 16 * k <= data@.len(),
            forall|j: int| 0 <= j < k ==> is_sv_data_at(#[trigger] sv_data@[j], data@, 20 + 16 * j),
        decreases 30 - k,
    {
        match parse_ssvsnr_data309(data, pos) {
            Ok((d, next)) => {
                sv_data[k] = d;
                pos = next;
            },
            Err(e) => return Err(e),
        }
        k = k + 1;
    }
    if data.len() < 502 {
        return Err(ParseError::UnexpectedEof);
    }
    let checksum = read_u16_le(data, 500);
    if data.len() < MSG309_LEN {
        return Err(ParseError::UnexpectedEof);
    }
    let crlf = read_u16_le(data, 502);
    let consumed = data.len();
    Ok((SBinaryMsg309 {
        head,
        gps_time_of_week_bits,
        gps_week,
        utc_time_diff,
        page,
        sv_data,
        checksum,
        crlf,
    }, consumed))
}

impl SBinaryMsg309 {
    /// The checksum reported for the message: the one it carries.
    pub fn calculate_checksum(&self) -> (r: u16)
        ensures
            r == self.checksum,
    {
        self.checksum
    }
}


/// Only the first 504 bytes are read: a message read from `s` is also the
/// message of every `t` that agrees with `s` on those bytes.
pub proof fn lemma_msg309_reads_only_its_bytes(m: SBinaryMsg309, s: Seq<u8>, t: Seq<u8>)
    requires
        s.len() >= 504,
        t.len() >= 504,
        s.subrange(0, 504) == t.subrange(0, 504),
        is_msg309_of(m, s),
    ensures
        is_msg309_of(m, t),
{
    assert forall|i: int| 0 <= i < 504 implies s[i] == t[i] by {
        assert(s.subrange(0, 504)[i] == s[i]);
        assert(t.subrange(0, 504)[i] == t[i]);
    }
    assert(s.subrange(0, 4) =~= t.subrange(0, 4));
    assert forall|k: int| 0 <= k < 30 implies is_sv_data_at(#[trigger] m.sv_data@[k], t, 20 + 16 * k) by {
        let r = m.sv_data@[k];
        assert(is_sv_data_at(r, s, 20 + 16 * k));
        assert forall|i: int| 0 <= i < 8 implies #[trigger] r.snr8_bits@[i] == 4 * t[20 + 16 * k + 8 + i]
            + bit_pair(r.lower2bits_snr, i) by {
            assert(r.snr8_bits@[i] == 4 * s[20 + 16 * k + 8 + i] + bit_pair(r.lower2bits_snr, i));
        }
    }
    match m.head {
        SUnionMsgHeader::Bytes(h) => {
            assert(h.soh@ == t.subrange(0, 4));
        },
        SUnionMsgHeader::DWord(h) => {},
    }
}

/// Every SNR value read from a message fits in ten bits.
pub proof fn lemma_msg309_snr_fits_ten_bits(m: SBinaryMsg309, s: Seq<u8>)
    requires
        is_msg309_of(m, s),
    ensures
        forall|k: int, i: int|
            0 <= k < 30 && 0 <= i < 8 ==> #[trigger] m.sv_data@[k].snr8_bits@[i] < 1024,
{
    assert forall|k: int, i: int| 0 <= k < 30 && 0 <= i < 8 implies #[trigger] m.sv_data@[k].snr8_bits@[i]
        < 1024 by {
        let r = m.sv_data@[k];
        assert(is_sv_data_at(r, s, 20 + 16 * k));
        let x = r.lower2bits_snr;
        let n = (2 * i) as u16;
        assert((x >> n) & 3u16 <= 3u16) by (bit_vector);
        assert(r.snr8_bits@[i] == 4 * s[20 + 16 * k + 8 + i] + bit_pair(x, i));
    }
}

/// A message cut out of a frame that starts with `$BIN` has a byte header.
pub proof fn lemma_synced_message_has_byte_header(m: SBinaryMsg309, s: Seq<u8>)
    requires
        has_bin_sync_at(s, 0),
        is_msg309_of(m, s),
    ensures
        m.head is Bytes,
{
}


/// The record that `is_sv_data_at` describes is unique.
proof fn lemma_sv_data_unique(r1: SSVSNRData309, r2: SSVSNRData309, s: Seq<u8>, p: int)
    requires
        is_sv_data_at(r1, s, p),
        is_sv_data_at(r2, s, p),
    ensures
        r1 == r2,
{
    broadcast use vstd::array::group_array_axioms;

    assert forall|i: int| 0 <= i < 8 implies r1.snr8_bits[i] == r2.snr8_bits[i] by {
        assert(r1.snr8_bits@[i] == r2.snr8_bits@[i]);
    }
    assert(r1.snr8_bits =~= r2.snr8_bits);
}

/// The bytes determine the message: two messages read from the same bytes
/// are equal.
pub proof fn lemma_msg309_unique(m1: SBinaryMsg309, m2: SBinaryMsg309, s: Seq<u8>)
    requires
        is_msg309_of(m1, s),
        is_msg309_of(m2, s),
    ensures
        m1 == m2,
{
    broadcast use vstd::array::group_array_axioms;

    assert forall|k: int| 0 <= k < 30 implies m1.sv_data[k] == m2.sv_data[k] by {
        lemma_sv_data_unique(m1.sv_data@[k], m2.sv_data@[k], s, 20 + 16 * k);
    }
    assert(m1.sv_data =~= m2.sv_data);
    match (m1.head, m2.head) {
        (SUnionMsgHeader::Bytes(h1), SUnionMsgHeader::Bytes(h2)) => {
            assert(h1.soh =~= h2.soh);
        },
        _ => {},
    }
}

} // verus!
