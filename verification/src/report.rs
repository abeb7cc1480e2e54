//! What is reported of each satellite channel record: the fields packed in
//! its identifier and status words, and the raw SNR count of each signal.
use crate::message::{bit_pair, is_sv_data_at, SSVSNRData309};
use vstd::prelude::*;

verus! {

/// The satellite system named by the system field of a channel record.
#[derive(Debug, Clone, Copy, PartialEq, Eq, Structural)]
pub enum SatSystem {
    Gps,
    Glonass,
    Galileo,
    Beidou,
    Qzss,
    Irnss,
    Sbas,
    Unknown,
}

/// The satellite system that system number `sys` stands for.
pub open spec fn spec_satellite_system(sys: u16) -> SatSystem {
    if sys == 0 {
        SatSystem::Gps
    } else if sys == 1 {
        SatSystem::Glonass
    } else if sys == 2 {
        SatSystem::Galileo
    } else if sys == 3 {
        SatSystem::Beidou
    } else if sys == 4 {
        SatSystem::Qzss
    } else if sys == 5 {
        SatSystem::Irnss
    } else if sys == 7 {
        SatSystem::Sbas
    } else {
        SatSystem::Unknown
    }
}

/// The satellite system that system number `sys` stands for: 0 GPS,
/// 1 GLONASS, 2 Galileo, 3 BeiDou, 4 QZSS, 5 IRNSS, 7 SBAS; any other
/// number is unknown.
pub fn satellite_system(sys: u16) -> (r: SatSystem)
    ensures
        r == spec_satellite_system(sys),
{
    match sys {
        0 => SatSystem::Gps,
        1 => SatSystem::Glonass,
        2 => SatSystem::Galileo,
        3 => SatSystem::Beidou,
        4 => SatSystem::Qzss,
        5 => SatSystem::Irnss,
        7 => SatSystem::Sbas,
        _ => SatSystem::Unknown,
    }
}

/// The name under which a system is reported.
pub open spec fn spec_system_name(system: SatSystem) -> &'static str {
    match system {
        SatSystem::Gps => "GPS",
        SatSystem::Glonass => "GLONASS",
        SatSystem::Galileo => "GALILEO",
        SatSystem::Beidou => "BEIDOU",
        SatSystem::Qzss => "QZSS",
        SatSystem::Irnss => "IRNSS",
        SatSystem::Sbas => "SBAS",
        SatSystem::Unknown => "unknown",
    }
}

impl SatSystem {
    /// The name under which the system is reported.
    pub fn name(&self) -> (r: &'static str)
        ensures
            r == spec_system_name(*self),
    {
        match *self {
            SatSystem::Gps => "GPS",
            SatSystem::Glonass => "GLONASS",
            SatSystem::Galileo => "GALILEO",
            SatSystem::Beidou => "BEIDOU",
            SatSystem::Qzss => "QZSS",
            SatSystem::Irnss => "IRNSS",
            SatSystem::Sbas => "SBAS",
            SatSystem::Unknown => "unknown",
        }
    }
}


/// The signals of each system whose SNR is reported by name, in the order
/// in which they are listed.
pub open spec fn spec_signal_names(system: SatSystem) -> Seq<&'static str> {
    match system {
        SatSystem::Gps => seq!["L1CA", "L2P", "L2C", "L5", "L1C"],
        SatSystem::Glonass => seq!["G1C_G1P", "G2C_G2P", "G10C", "G20C", "G30C"],
        SatSystem::Galileo => seq!["E1BC", "E5A", "E5B", "E6", "ALTBOC"],
        SatSystem::Beidou => seq!["B1I", "B2I", "B3I", "B1BOC", "B2A", "B2B", "B3C", "ACEBOC"],
        SatSystem::Qzss => seq!["L1CA", "L2C", "L5", "L1C", "LEX"],
        SatSystem::Irnss => seq!["L5"],
        _ => Seq::empty(),
    }
}

/// How the SNR values of a record are reported.
#[derive(Debug)]
pub enum SnrLayout {
    /// One value per channel slot, in slot order.
    PerChannel,
    /// One value for each of these named signals.
    Named(Vec<&'static str>),
}

/// How the SNR values of a record of `system` are reported: per channel
/// slot for SBAS, by signal name for the six systems that have a signal
/// list, and not at all (`None`) for an unknown system.
pub fn snr_layout(system: SatSystem) -> (r: Option<SnrLayout>)
    ensures
        system == SatSystem::Sbas ==> r matches Some(SnrLayout::PerChannel),
        system == SatSystem::Unknown ==> r is None,
        system != SatSystem::Sbas && system != SatSystem::Unknown ==> (r matches Some(
            SnrLayout::Named(names),
        ) && names@ == spec_signal_names(system)),
{
    let names: Vec<&'static str> = match system {
        SatSystem::Gps => vec!["L1CA", "L2P", "L2C", "L5", "L1C"],
        SatSystem::Glonass => vec!["G1C_G1P", "G2C_G2P", "G10C", "G20C", "G30C"],
        SatSystem::Galileo => vec!["E1BC", "E5A", "E5B", "E6", "ALTBOC"],
        SatSystem::Beidou => vec!["B1I", "B2I", "B3I", "B1BOC", "B2A", "B2B", "B3C", "ACEBOC"],
        SatSystem::Qzss => vec!["L1CA", "L2C", "L5", "L1C", "LEX"],
        SatSystem::Irnss => vec!["L5"],
        SatSystem::Sbas => return Some(SnrLayout::PerChannel),
        SatSystem::Unknown => return None,
    };
    assert(names@ =~= spec_signal_names(system));
    Some(SnrLayout::Named(names))
}


/// The PRN number: bits 0-5 of the identifier word.
pub open spec fn prn_number(id: u16) -> u16 {
    id % 64
}

/// The satellite system number: bits 7-10 of the identifier word.
pub open spec fn system_number(id: u16) -> u16 {
    (id / 128) % 16
}

/// The spare bits 11-15 of the identifier word.
pub open spec fn spare_number(id: u16) -> u16 {
    id / 2048
}

/// Bit 13 of the status word: the ephemeris is available.
pub open spec fn ephemeris_flag(status: u16) -> bool {
    (status / 8192) % 2 == 1
}

/// Bit 14 of the status word: the satellite is healthy.
pub open spec fn health_flag(status: u16) -> bool {
    (status / 16384) % 2 == 1
}

/// Bit 15 of the status word: the satellite is used in the navigation
/// solution.
pub open spec fn used_flag(status: u16) -> bool {
    status / 32768 == 1
}

/// The raw SNR count of signal `i`: none (0) when its SNR field is 0,
/// otherwise four times that field plus the signal's two low bits.
pub open spec fn snr_count(snr8: u32, lower2bits: u16, i: int) -> u64 {
    if snr8 == 0 {
        0
    } else {
        (4 * snr8 + bit_pair(lower2bits, i)) as u64
    }
}

/// What is reported of a satellite channel record.
#[derive(Debug, Clone, Copy)]
pub struct SvReport {
    pub prn: u16,
    pub system: SatSystem,
    pub sys: u16,
    pub spare: u16,
    pub status: u16,
    pub elevation: i8,
    /// Azimuth in degrees.
    pub azimuth_deg: u32,
    pub lower2bits_snr: u16,
    pub snr8_bits: [u32; 8],
    pub health_ok: bool,
    pub ephemeris_available: bool,
    pub satellite_used: bool,
    /// Raw SNR count of each signal; 0 where the signal has none.
    pub snr_counts: [u64; 8],
}

/// `r` reports the record `d`.
pub open spec fn is_report_of(r: SvReport, d: SSVSNRData309) -> bool {
    &&& r.prn == prn_number(d.sys_prn_id)
    &&& r.sys == system_number(d.sys_prn_id)
    &&& r.system == spec_satellite_system(r.sys)
    &&& r.spare == spare_number(d.sys_prn_id)
    &&& r.status == d.status
    &&& r.elevation == d.elevation
    &&& r.azimuth_deg == 2 * d.azimuth
    &&& r.lower2bits_snr == d.lower2bits_snr
    &&& r.snr8_bits == d.snr8_bits
    &&& r.health_ok == health_flag(d.status)
    &&& r.ephemeris_available == ephemeris_flag(d.status)
    &&& r.satellite_used == used_flag(d.status)
    &&& forall|i: int|
        0 <= i < 8 ==> #[trigger] r.snr_counts@[i] == snr_count(
            d.snr8_bits@[i],
            d.lower2bits_snr,
            i,
        )
}

/// The raw SNR count of signal `i` of a record.
fn snr_count_of(snr8: u32, lower2bits: u16, i: u16) -> (r: u64)
    requires
        i < 8,
    ensures
        r == snr_count(snr8, lower2bits, i as int),
{
    if snr8 == 0 {
        return 0;
    }
    let two: u16 = (lower2bits >> (2 * i)) & 0x3;
    assert(two <= 3) by (bit_vector)
        requires
            two == (lower2bits >> (2 * i)) & 0x3,
    ;
    let wide: u64 = snr8 as u64;
    assert((wide << 2u64) == 4 * wide) by (bit_vector)
        requires
            wide <= 0xffff_ffff,
    ;
    (wide << 2) + two as u64
}

/// Decodes what is reported of the record `d`: PRN, system and spare bits
/// of its identifier, the health, ephemeris and use flags of its status,
/// its azimuth in degrees, and the raw SNR count of each signal.
pub fn report_sv(d: &SSVSNRData309) -> (r: SvReport)
    ensures
        is_report_of(r, *d),
{
    let id = d.sys_prn_id;
    let sys: u16 = (id >> 7) & 0xf;
    let spare: u16 = (id >> 11) & 0x1f;
    let prn: u16 = id & 63;
    assert(sys == (id / 128) % 16 && spare == id / 2048 && prn == id % 64) by (bit_vector)
        requires
            sys == (id >> 7) & 0xf,
            spare == (id >> 11) & 0x1f,
            prn == id & 63,
    ;
    let st = d.status;
    let ephemeris_available = (st >> 13) & 1 == 1;
    let health_ok = (st >> 14) & 1 == 1;
    let satellite_used = (st >> 15) & 1 == 1;
    assert(ephemeris_available == ((st / 8192) % 2 == 1) && health_ok == ((st / 16384) % 2 == 1)
        && satellite_used == (st / 32768 == 1)) by (bit_vector)
        requires
            ephemeris_available == ((st >> 13) & 1 == 1),
            health_ok == ((st >> 14) & 1 == 1),
            satellite_used == ((st >> 15) & 1 == 1),
    ;
    let mut snr_counts = [0u64; 8];
    let mut i: u16 = 0;
    while i < 8
        invariant
            i <= 8,
            forall|j: int|
                0 <= j < i ==> #[trigger] snr_counts@[j] == snr_count(
                    d.snr8_bits@[j],
                    d.lower2bits_snr,
                    j,
                ),
        decreases 8 - i,
    {
        let c = snr_count_of(d.snr8_bits[i as usize], d.lower2bits_snr, i);
        snr_counts[i as usize] = c;
        i = i + 1;
    }
    SvReport {
        prn,
        system: satellite_system(sys),
        sys,
        spare,
        status: st,
        elevation: d.elevation,
        azimuth_deg: d.azimuth as u32 * 2,
        lower2bits_snr: d.lower2bits_snr,
        snr8_bits: d.snr8_bits,
        health_ok,
        ephemeris_available,
        satellite_used,
        snr_counts,
    }
}


/// A record read from the bytes of a message reports SNR counts below 4096:
/// its SNR values fit in ten bits, so four times one plus two bits fits in
/// twelve.
pub proof fn lemma_reported_snr_fits_twelve_bits(
    r: SvReport,
    d: SSVSNRData309,
    s: Seq<u8>,
    p: int,
)
    requires
        is_sv_data_at(d, s, p),
        is_report_of(r, d),
    ensures
        forall|i: int| 0 <= i < 8 ==> #[trigger] r.snr_counts@[i] < 4096,
{
    assert forall|i: int| 0 <= i < 8 implies #[trigger] r.snr_counts@[i] < 4096 by {
        let x = d.lower2bits_snr;
        let n = (2 * i) as u16;
        assert((x >> n) & 3u16 <= 3u16) by (bit_vector);
        assert(d.snr8_bits@[i] == 4 * s[p + 8 + i] + bit_pair(x, i));
        assert(r.snr_counts@[i] == snr_count(d.snr8_bits@[i], x, i));
    }
}


/// A record's system is unknown, and so its SNR values have no layout,
/// exactly when its system number is 6 or 8-15; the numbers 0-5 and 7 name
/// GPS, GLONASS, Galileo, BeiDou, QZSS, IRNSS and SBAS.
pub proof fn lemma_unknown_system_numbers(id: u16)
    ensures
        system_number(id) < 16,
        spec_satellite_system(system_number(id)) == SatSystem::Unknown <==> (system_number(id)
            == 6 || system_number(id) >= 8),
        system_number(id) == 0 ==> spec_system_name(spec_satellite_system(system_number(id)))
            == "GPS",
        system_number(id) == 1 ==> spec_system_name(spec_satellite_system(system_number(id)))
            == "GLONASS",
        system_number(id) == 2 ==> spec_system_name(spec_satellite_system(system_number(id)))
            == "GALILEO",
        system_number(id) == 3 ==> spec_system_name(spec_satellite_system(system_number(id)))
            == "BEIDOU",
        system_number(id) == 4 ==> spec_system_name(spec_satellite_system(system_number(id)))
            == "QZSS",
        system_number(id) == 5 ==> spec_system_name(spec_satellite_system(system_number(id)))
            == "IRNSS",
        system_number(id) == 7 ==> spec_system_name(spec_satellite_system(system_number(id)))
            == "SBAS",
{
}

/// What is reported of a record, in terms of the bits of its words: PRN is
/// `id & 63`, system `(id >> 7) & 0xF`, spare `(id >> 11) & 0x1F`; the
/// health, ephemeris and use flags are status bits 14, 13 and 15; the
/// azimuth is doubled; the other fields are the record's own.
pub proof fn lemma_report_bit_fields(r: SvReport, d: SSVSNRData309)
    requires
        is_report_of(r, d),
    ensures
        r.prn == d.sys_prn_id & 63,
        r.sys == (d.sys_prn_id >> 7) & 0xf,
        r.spare == (d.sys_prn_id >> 11) & 0x1f,
        r.system == spec_satellite_system((d.sys_prn_id >> 7) & 0xf),
        r.health_ok == ((d.status >> 14) & 1 == 1),
        r.ephemeris_available == ((d.status >> 13) & 1 == 1),
        r.satellite_used == ((d.status >> 15) & 1 == 1),
        r.azimuth_deg == d.azimuth as u32 * 2,
        r.status == d.status,
        r.elevation == d.elevation,
        r.lower2bits_snr == d.lower2bits_snr,
        r.snr8_bits == d.snr8_bits,
{
    let id = d.sys_prn_id;
    let st = d.status;
    assert((id >> 7) & 0xf == (id / 128) % 16 && (id >> 11) & 0x1f == id / 2048 && id & 63 == id
        % 64) by (bit_vector);
    assert(((st >> 13) & 1 == 1) == ((st / 8192) % 2 == 1) && ((st >> 14) & 1 == 1) == ((st
        / 16384) % 2 == 1) && ((st >> 15) & 1 == 1) == (st / 32768 == 1)) by (bit_vector);
}


/// The SNR count of a signal in terms of the record alone: a signal whose
/// SNR value `v` is not zero is reported as `4 * v` plus its two low bits
/// `(lower2bits_snr >> 2i) & 3`, which is never zero; the count is zero
/// exactly for a signal whose SNR value is zero.
pub proof fn lemma_report_snr_counts(r: SvReport, d: SSVSNRData309)
    requires
        is_report_of(r, d),
    ensures
        forall|i: int|
            0 <= i < 8 && d.snr8_bits@[i] != 0 ==> #[trigger] r.snr_counts@[i] == 4
                * d.snr8_bits@[i] + ((d.lower2bits_snr >> (2 * i) as u16) & 3u16),
        forall|i: int| 0 <= i < 8 ==> (#[trigger] r.snr_counts@[i] == 0 <==> d.snr8_bits@[i] == 0),
{
    assert forall|i: int| 0 <= i < 8 implies (#[trigger] r.snr_counts@[i] == 0 <==> d.snr8_bits@[i]
        == 0) && (d.snr8_bits@[i] != 0 ==> r.snr_counts@[i] == 4 * d.snr8_bits@[i] + ((
    d.lower2bits_snr >> (2 * i) as u16) & 3u16)) by {
        assert(r.snr_counts@[i] == snr_count(d.snr8_bits@[i], d.lower2bits_snr, i));
    }
}

/// The signals reported by name for each system, as the receiver lists
/// them: five each for GPS, GLONASS, Galileo and QZSS, eight for BeiDou,
/// one for IRNSS; none for SBAS and unknown systems.
pub proof fn lemma_signal_lists()
    ensures
        spec_signal_names(SatSystem::Gps) =~= seq!["L1CA", "L2P", "L2C", "L5", "L1C"],
        spec_signal_names(SatSystem::Glonass) =~= seq![
            "G1C_G1P",
            "G2C_G2P",
            "G10C",
            "G20C",
            "G30C",
        ],
        spec_signal_names(SatSystem::Galileo) =~= seq!["E1BC", "E5A", "E5B", "E6", "ALTBOC"],
        spec_signal_names(SatSystem::Beidou) =~= seq![
            "B1I",
            "B2I",
            "B3I",
            "B1BOC",
            "B2A",
            "B2B",
            "B3C",
            "ACEBOC",
        ],
        spec_signal_names(SatSystem::Qzss) =~= seq!["L1CA", "L2C", "L5", "L1C", "LEX"],
        spec_signal_names(SatSystem::Irnss) =~= seq!["L5"],
        spec_signal_names(SatSystem::Sbas).len() == 0,
        spec_signal_names(SatSystem::Unknown).len() == 0,
{
}

/// Each system names at most eight signals, one for each SNR slot of a
/// record, so every named signal receives an SNR value.
pub proof fn lemma_signal_lists_fit_snr_slots(system: SatSystem)
    ensures
        spec_signal_names(system).len() <= 8,
        system != SatSystem::Sbas && system != SatSystem::Unknown ==> spec_signal_names(
            system,
        ).len() >= 1,
{
}

} // verus!
