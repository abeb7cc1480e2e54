use gnss_reader::message::{parse_ssvsnr_data309, SSVSNRData309};
use gnss_reader::report::{report_sv, satellite_system, snr_layout, SatSystem, SnrLayout};

fn record(id: u16, status: u16, snr: [u32; 8], lower: u16) -> SSVSNRData309 {
    SSVSNRData309 {
        sys_prn_id: id,
        status,
        elevation: 30,
        azimuth: 100,
        lower2bits_snr: lower,
        snr8_bits: snr,
    }
}

#[test]
fn report_decodes_identifier_and_status() {
    // PRN 17, system 2 (Galileo), spare 0b10101
    let id: u16 = 17 | (2 << 7) | (0b10101 << 11);
    let rep = report_sv(&record(id, 0b1010_0000_0000_0000, [0; 8], 0));
    assert_eq!(rep.prn, 17);
    assert_eq!(rep.sys, 2);
    assert_eq!(rep.system, SatSystem::Galileo);
    assert_eq!(rep.spare, 0b10101);
    assert!(rep.satellite_used);
    assert!(!rep.health_ok);
    assert!(rep.ephemeris_available);
    assert_eq!(rep.azimuth_deg, 200);
    assert_eq!(rep.elevation, 30);
}

#[test]
fn report_snr_counts() {
    let rep = report_sv(&record(0, 0, [0, 1, 1023, 0, 5, 0, 0, u32::MAX], 0b1100_0000_0000_1001));
    // low bit pairs: 1, 2, 0, 0, 0, 0, 0, 3
    assert_eq!(rep.snr_counts, [0, 4 + 2, 4092, 0, 20, 0, 0, 4 * u32::MAX as u64 + 3]);
}

#[test]
fn report_prn_takes_six_bits() {
    let rep = report_sv(&record(0x00ff, 0x4000, [0; 8], 0));
    assert_eq!(rep.prn, 63);
    assert_eq!(rep.sys, 1);
    assert!(rep.health_ok);
    assert!(!rep.satellite_used);
}

#[test]
fn system_numbers() {
    assert_eq!(satellite_system(0), SatSystem::Gps);
    assert_eq!(satellite_system(1), SatSystem::Glonass);
    assert_eq!(satellite_system(3), SatSystem::Beidou);
    assert_eq!(satellite_system(4), SatSystem::Qzss);
    assert_eq!(satellite_system(5), SatSystem::Irnss);
    assert_eq!(satellite_system(6), SatSystem::Unknown);
    assert_eq!(satellite_system(7), SatSystem::Sbas);
    assert_eq!(satellite_system(15), SatSystem::Unknown);
    assert_eq!(SatSystem::Sbas.name(), "SBAS");
    assert_eq!(SatSystem::Unknown.name(), "unknown");
    assert_eq!(SatSystem::Galileo.name(), "GALILEO");
}

#[test]
fn snr_layouts() {
    assert!(matches!(snr_layout(SatSystem::Sbas), Some(SnrLayout::PerChannel)));
    assert!(snr_layout(SatSystem::Unknown).is_none());
    match snr_layout(SatSystem::Beidou) {
        Some(SnrLayout::Named(names)) => {
            assert_eq!(names, vec!["B1I", "B2I", "B3I", "B1BOC", "B2A", "B2B", "B3C", "ACEBOC"])
        }
        _ => panic!("expected named signals"),
    }
    match snr_layout(SatSystem::Irnss) {
        Some(SnrLayout::Named(names)) => assert_eq!(names, vec!["L5"]),
        _ => panic!("expected named signals"),
    }
}

#[test]
fn reported_counts_of_parsed_record_fit_twelve_bits() {
    let mut data = vec![0xffu8; 16];
    data[1] = 0x03; // system 7
    let (d, _) = parse_ssvsnr_data309(&data, 0).unwrap();
    let rep = report_sv(&d);
    assert_eq!(rep.system, SatSystem::Sbas);
    assert_eq!(rep.snr_counts, [4095; 8]);
}

#[test]
fn layout_missing_exactly_for_unknown_system_numbers() {
    for sys in 0u16..16 {
        let rep = report_sv(&record(sys << 7, 0, [0; 8], 0));
        assert_eq!(rep.sys, sys);
        assert_eq!(snr_layout(rep.system).is_none(), sys == 6 || sys >= 8);
    }
}
