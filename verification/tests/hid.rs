use unifand::hid::{
    hidiocginput_code, manual_mode_buf, parse_rpm, rgb_sync_off_buf, speed_buf, speed_byte,
    uevent_matches, REPORT_ID, REPORT_LEN,
};

#[test]
fn speed_byte_matches_slv2_formula() {
    assert_eq!(speed_byte(0), 12); // (250 + 0) / 20
    assert_eq!(speed_byte(50), 56); // (250 + 875) / 20 = 1125/20
    assert_eq!(speed_byte(100), 100); // (250 + 1750) / 20
    assert_eq!(speed_byte(150), 100); // clamped to 100%
}

#[test]
fn buffers_match_reference_implementations() {
    assert_eq!(rgb_sync_off_buf(), [224, 16, 97, 0, 0, 0, 0]);
    assert_eq!(manual_mode_buf(1), [224, 16, 98, 0x10]);
    assert_eq!(manual_mode_buf(3), [224, 16, 98, 0x40]);
    assert_eq!(speed_buf(1, 100), [224, 32, 0, 100]);
    assert_eq!(speed_buf(2, 0), [224, 33, 0, 12]);
}

#[test]
fn rpm_parses_big_endian_at_channel_offset() {
    let mut report = [0u8; REPORT_LEN];
    report[0] = REPORT_ID;
    report[2] = 0x07;
    report[3] = 0xD0; // ch1 = 2000
    report[4] = 0x03;
    report[5] = 0xE8; // ch2 = 1000
    assert_eq!(parse_rpm(&report, 1), Some(2000));
    assert_eq!(parse_rpm(&report, 2), Some(1000));
    assert_eq!(parse_rpm(&report, 5), None); // bad channel
    assert_eq!(parse_rpm(&report[..4], 2), None); // short report
}

#[test]
fn ioctl_code_matches_hidiocginput_65() {
    // _IOC(READ|WRITE, 'H', 0x0A, 65) computed by hand
    assert_eq!(hidiocginput_code(REPORT_LEN), 0xC041480A);
}

#[test]
fn uevent_matching() {
    assert!(uevent_matches("HID_ID=0003:00000CF2:0000A105\nHID_NAME=x"));
    assert!(!uevent_matches("HID_ID=0003:00000CF2:0000A102\n"));
    assert!(!uevent_matches("HID_ID=0003:0000046D:0000C52B\n"));
}
