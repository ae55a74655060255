use nvml_wrapper::bitmasks::device::ThrottleReasons;
use unifand::binary64::Binary64;
use unifand::probe::{
    answered_fields, bracket, field_margin_text, format_probe, numeric_payload, shown,
    throttle_answers, unreachable_snapshot, ProbeSnapshot,
};
use unifand::report::{Piece, Report};

fn n(x: f64) -> Binary64 {
    Binary64::from_bits(x.to_bits())
}

fn printed(r: &Report) -> String {
    let mut out = String::new();
    for p in &r.pieces {
        match p {
            Piece::Text(s) => out.push_str(s),
            Piece::Value(x) => out.push_str(&format!("{}", f64::from_bits(x.to_bits()))),
        }
    }
    out
}

fn ok(s: &str) -> Result<String, String> {
    Ok(s.to_string())
}

fn snapshot() -> ProbeSnapshot {
    let (throttle_raw, throttle_reasons) =
        throttle_answers(&Ok((ThrottleReasons::GPU_IDLE | ThrottleReasons::SW_POWER_CAP).bits()));
    ProbeSnapshot {
        nvml_version: ok("12.\t\"1\""),
        driver_version: Err("No \u{e9}cho".to_string()),
        device_name: ok("RTX"),
        power_usage_mw: Ok(579310),
        enforced_power_limit_mw: Err("NotSupported".to_string()),
        power_management_limit_mw: Ok(1),
        power_limit_constraints_mw: Ok((400000, 600000)),
        temperature_gpu_c: Ok(39),
        thresholds: vec![("Shutdown", Ok(95)), ("GpuMax", Ok(90))],
        fields: answered_fields(
            &vec![ok("U32(1)"), ok("F64(2.5)"), Err("e".to_string())],
            "unknown",
        ),
        throttle_raw,
        throttle_reasons,
    }
}

#[test]
fn each_throttle_bit_has_one_name() {
    let all = [
        "GPU_IDLE",
        "APPLICATIONS_CLOCKS_SETTING",
        "SW_POWER_CAP",
        "HW_SLOWDOWN",
        "SYNC_BOOST",
        "SW_THERMAL_SLOWDOWN",
        "HW_THERMAL_SLOWDOWN",
        "HW_POWER_BRAKE_SLOWDOWN",
        "DISPLAY_CLOCK_SETTING",
    ];
    for bits in 0u64..1024 {
        let want: Vec<String> = all
            .iter()
            .enumerate()
            .filter(|(i, _)| bits >> i & 1 == 1)
            .map(|(_, name)| name.to_string())
            .collect();
        assert_eq!(throttle_answers(&Ok(bits)), (Ok(bits), Ok(want)));
    }
    assert_eq!(
        throttle_answers(&Err("gone".to_string())),
        (Err("gone".to_string()), Err("gone".to_string()))
    );
}

#[test]
fn a_dump_has_every_item_as_debug_shows_it() {
    let s = snapshot();
    let mut want = String::new();
    want.push_str(&format!("nvml_version={:?}\n", s.nvml_version));
    want.push_str(&format!("driver_version={:?}\n", s.driver_version));
    want.push_str(&format!("device_name={:?}\n", s.device_name));
    want.push_str(&format!("power_usage_mw={:?}\n", s.power_usage_mw));
    want.push_str(&format!("enforced_power_limit_mw={:?}\n", s.enforced_power_limit_mw));
    want.push_str(&format!("power_management_limit_mw={:?}\n", s.power_management_limit_mw));
    want.push_str(&format!("power_limit_constraints_mw={:?}\n", s.power_limit_constraints_mw));
    want.push_str(&format!("temperature_gpu_c={:?}\n", s.temperature_gpu_c));
    for (name, r) in &s.thresholds {
        want.push_str(&format!("threshold.{name}={r:?}\n"));
    }
    for (id, name, r) in &s.fields {
        want.push_str(&format!("field.{id}.{name}={r:?}\n"));
    }
    want.push_str(&format!("throttle_raw={:?}\n", s.throttle_raw));
    want.push_str(&format!("throttle_reasons={:?}\n", s.throttle_reasons));
    want.push_str("derived.margin_via_field196_c=-3.5\n");
    want.push_str("derived.margin_via_threshold_c=51\n");
    assert_eq!(printed(&format_probe(&s, Some(n(-3.5)))), want);
    assert!(want.contains("throttle_reasons=Ok([\"GPU_IDLE\", \"SW_POWER_CAP\"])\n"));
}

#[test]
fn fields_without_an_answer_keep_their_place() {
    let f = answered_fields(&vec![ok("a"), Err("b".to_string())], "missing");
    let ids: Vec<u32> = f.iter().map(|x| x.0).collect();
    assert_eq!(ids, vec![185, 186, 82, 193, 194, 195, 196]);
    assert_eq!(f[0].2, ok("a"));
    assert_eq!(f[1].2, Err("b".to_string()));
    assert!(f[2..].iter().all(|x| x.2 == Err("missing".to_string())));
    let many: Vec<Result<String, String>> = (0..9).map(|i| Ok(i.to_string())).collect();
    assert_eq!(answered_fields(&many, "missing").len(), 7);
}

#[test]
fn a_gpu_that_cannot_be_asked_gives_the_same_reason_everywhere() {
    let s = unreachable_snapshot(ok("12"), ok("570"), "gone");
    let out = printed(&format_probe(&s, None));
    assert_eq!(out.matches("Err(\"gone\")").count(), 6 + 8 + 7 + 2);
    assert!(!out.contains("derived."));
    assert!(out.starts_with("nvml_version=Ok(\"12\")\ndriver_version=Ok(\"570\")\n"));
    let (raw, names) = throttle_answers(&Err("x".to_string()));
    assert_eq!((raw, names), (Err("x".to_string()), Err("x".to_string())));
}

#[test]
fn the_digits_stand_between_the_outer_brackets() {
    assert_eq!(numeric_payload("I64(-3)"), Some("-3"));
    assert_eq!(numeric_payload("F64( 2.5 )"), Some("2.5"));
    assert_eq!(numeric_payload("A(B(1))"), Some("B(1)"));
    assert_eq!(numeric_payload("()"), Some(""));
    assert_eq!(numeric_payload(")("), None);
    assert_eq!(numeric_payload("(1"), None);
    assert_eq!(numeric_payload("1)"), None);
    assert_eq!(numeric_payload(""), None);
}

#[test]
fn the_margin_is_that_of_the_first_field_of_its_name() {
    let mut s = snapshot();
    assert_eq!(field_margin_text(&s), None);
    s.fields = vec![
        (1, "OTHER", ok("U32(7)")),
        (196, "GPU_MAX_TLIMIT", ok("I64(-3)")),
        (196, "GPU_MAX_TLIMIT", ok("I64(5)")),
    ];
    assert_eq!(field_margin_text(&s), Some("-3"));
    s.fields[1].2 = Err("e".to_string());
    assert_eq!(field_margin_text(&s), None);
}

#[test]
fn answers_are_shown_with_their_kind() {
    assert_eq!(shown(true, "1"), "Ok(1)");
    assert_eq!(shown(false, "\"x\""), "Err(\"x\")");
    assert_eq!(bracket(&vec![]), "[]");
    assert_eq!(bracket(&vec!["a".to_string(), "b".to_string()]), "[a, b]");
}
