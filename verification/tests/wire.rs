use unifand::hid::{
    duty_write, effect_speed_write, effect_writes, hidiocginput_code, init_writes, input_request,
    rgb_writes, speed_byte, uevent_matches,
};
use unifand::rgb::{
    commit_packet, multi_color_packet, start_packet, MODE_BREATHING, MODE_RUNWAY, MODE_STATIC,
    SPEEDS,
};

#[test]
fn setting_up_switches_the_leds_and_every_channel() {
    let w = init_writes(&[1, 4]);
    assert_eq!(w.len(), 3);
    assert_eq!(w[0].what, "rgb sync off");
    assert_eq!(w[0].bytes, vec![224, 16, 97, 0, 0, 0, 0]);
    assert_eq!(w[1].what, "manual mode ch1");
    assert_eq!(w[1].bytes, vec![224, 16, 98, 0x10]);
    assert_eq!(w[2].bytes, vec![224, 16, 98, 0x80]);
    assert!(w.iter().all(|x| x.pause_ms == 200));
}

#[test]
fn a_duty_is_one_write_without_a_pause() {
    let w = duty_write(3, 50);
    assert_eq!(w.what, "set duty ch3 50%");
    assert_eq!(w.bytes, vec![224, 34, 0, 56]);
    assert_eq!(w.pause_ms, 0);
}

#[test]
fn an_animation_is_start_colors_commit() {
    let w = effect_writes(2, 6, &[(1, 2, 3), (4, 5, 6)], MODE_RUNWAY, SPEEDS[2], 3);
    assert_eq!(w.len(), 3);
    assert_eq!(w[0].what, "rgb start ch2");
    assert_eq!(w[0].bytes, start_packet(2, 6).to_vec());
    assert_eq!(w[1].what, "rgb multi_color ch2");
    assert_eq!(w[1].bytes, multi_color_packet(2, &[(1, 2, 3), (4, 5, 6)]).to_vec());
    assert_eq!(w[2].what, "rgb commit ch2");
    assert_eq!(w[2].bytes, commit_packet(2, MODE_RUNWAY, 0x00, 3).to_vec());
    assert!(w.iter().all(|x| x.pause_ms == 10));
    let s = rgb_writes(1, 4, (7, 8, 9), 0);
    assert_eq!(s[1].bytes, multi_color_packet(1, &[(7, 8, 9)]).to_vec());
    assert_eq!(s[2].bytes, commit_packet(1, MODE_STATIC, 0x02, 0).to_vec());
}

#[test]
fn a_new_speed_is_the_commit_alone() {
    let w = effect_speed_write(4, MODE_BREATHING, SPEEDS[4], 1);
    assert_eq!(w.bytes, commit_packet(4, MODE_BREATHING, 0xFE, 1).to_vec());
    assert_eq!(w.pause_ms, 0);
}

#[test]
fn speeds_on_the_wire_follow_the_formula_and_rise() {
    let mut last = 0;
    for d in 0..=255u8 {
        let want = ((250.0 + 17.5 * d.min(100) as f64) as usize / 20) as u8;
        assert_eq!(speed_byte(d), want);
        assert!(want >= last);
        last = want;
    }
}

#[test]
fn request_codes_carry_the_length() {
    for len in [0usize, 1, 64, 65, 0x3fff] {
        assert_eq!(hidiocginput_code(len), 0xC000_480A + ((len as u64) << 16));
    }
    let r = input_request();
    assert_eq!(r[0], 224);
    assert!(r[1..].iter().all(|&b| b == 0));
}

#[test]
fn the_hub_is_named_on_one_line_that_starts_right() {
    assert!(uevent_matches("DRIVER=x\r\nHID_ID=0003:00000CF2:0000A105\r\n"));
    assert!(uevent_matches("HID_ID=0CF2:0000A105"));
    assert!(!uevent_matches("XHID_ID=0003:00000CF2:0000A105\n"));
    assert!(!uevent_matches("HID_ID=0003\n00000CF2:0000A105\n"));
    assert!(!uevent_matches("HID_ID=0003:00000cf2:0000a105\n"));
    assert!(!uevent_matches(""));
    assert!(uevent_matches("HID_ID=nothing\nHID_ID=0003:00000CF2:0000A105"));
}
