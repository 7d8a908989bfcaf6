use tuxfans::tuxedo::{ec_auto, mode_enabled, read_value, write_ok, EcRequest};

#[test]
fn request_codes_match_the_driver_table() {
    assert_eq!(EcRequest::ReadFanSpeed1.code(), 0x8004EF10);
    assert_eq!(EcRequest::ReadFanSpeed2.code(), 0x8004EF11);
    assert_eq!(EcRequest::ReadModeEnable.code(), 0x8008EF15);
    assert_eq!(EcRequest::WriteFanSpeed1.code(), 0x4008F010);
    assert_eq!(EcRequest::WriteFanSpeed2.code(), 0x4008F011);
    assert_eq!(EcRequest::WriteModeEnable.code(), 0x4008F013);
    assert_eq!(EcRequest::WriteFanAuto.code(), 0x0000F014);
    assert_eq!(EcRequest::WritePerformanceProfile.code(), 0x4008F018);
}

#[test]
fn fan_speed_reads_carry_size_four() {
    assert_eq!((EcRequest::ReadFanSpeed1.code() >> 16) & 0x3fff, 4);
    assert_eq!((EcRequest::ReadFanSpeed2.code() >> 16) & 0x3fff, 4);
    assert_eq!((EcRequest::ReadModeEnable.code() >> 16) & 0x3fff, 8);
}

#[test]
fn read_values_and_mode() {
    assert_eq!(read_value(-1, 42), None);
    assert_eq!(read_value(0, 42), Some(42));
    assert_eq!(read_value(0, 0x1_05), Some(5));
    assert_eq!(read_value(3, -1), Some(255));
    assert!(mode_enabled(1));
    assert!(mode_enabled(2));
    assert!(!mode_enabled(0));
    assert_eq!(ec_auto(Some(true)), Some(false));
    assert_eq!(ec_auto(Some(false)), Some(true));
    assert_eq!(ec_auto(None), None);
}

#[test]
fn write_results() {
    assert!(write_ok(0));
    assert!(write_ok(7));
    assert!(!write_ok(-1));
    assert!(!write_ok(i32::MIN));
}
