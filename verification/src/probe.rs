//! A dump of everything that the GPU answers, for diagnosis.

use crate::binary64;
use crate::binary64::{Binary64, Number};
use crate::diagnostics;
use crate::report;
use crate::report::{Glyph, Report};
use crate::signals;
use crate::text;
use crate::text::{chars_of, decimal, quoted, same_text, trim};
use nvml_wrapper::bitmasks::device::ThrottleReasons;
use vstd::prelude::*;

verus! {

/// What the GPU answered. What it did not answer is there as the reason why
/// not.
#[derive(Debug)]
pub struct ProbeSnapshot {
    pub nvml_version: Result<String, String>,
    pub driver_version: Result<String, String>,
    pub device_name: Result<String, String>,
    pub power_usage_mw: Result<u32, String>,
    pub enforced_power_limit_mw: Result<u32, String>,
    pub power_management_limit_mw: Result<u32, String>,
    pub power_limit_constraints_mw: Result<(u32, u32), String>,
    pub temperature_gpu_c: Result<u32, String>,
    pub thresholds: Vec<(&'static str, Result<u32, String>)>,
    pub fields: Vec<(u32, &'static str, Result<String, String>)>,
    pub throttle_raw: Result<u64, String>,
    pub throttle_reasons: Result<Vec<String>, String>,
}

/// The thresholds that are asked for, by name.
pub open spec fn probed_thresholds(v: Seq<&'static str>) -> bool {
    &&& v.len() == 8
    &&& v[0]@ == "Shutdown"@
    &&& v[1]@ == "Slowdown"@
    &&& v[2]@ == "MemoryMax"@
    &&& v[3]@ == "GpuMax"@
    &&& v[4]@ == "AcousticMin"@
    &&& v[5]@ == "AcousticCurr"@
    &&& v[6]@ == "AcousticMax"@
    &&& v[7]@ == "GpsCurr"@
}

/// The thresholds that are asked for, by name.
pub fn threshold_names() -> (v: Vec<&'static str>)
    ensures
        probed_thresholds(v@),
{
    vec![
        "Shutdown",
        "Slowdown",
        "MemoryMax",
        "GpuMax",
        "AcousticMin",
        "AcousticCurr",
        "AcousticMax",
        "GpsCurr",
    ]
}

/// Whether a field has a number and a name.
pub open spec fn field_is(f: (u32, &'static str), id: u32, name: Seq<char>) -> bool {
    f.0 == id && f.1@ == name
}

/// The fields that are asked for, with their numbers.
pub open spec fn probed_fields(v: Seq<(u32, &'static str)>) -> bool {
    &&& v.len() == 7
    &&& field_is(v[0], 185, "POWER_AVERAGE"@)
    &&& field_is(v[1], 186, "POWER_INSTANT"@)
    &&& field_is(v[2], 82, "MEMORY_TEMP"@)
    &&& field_is(v[3], 193, "SHUTDOWN_TLIMIT"@)
    &&& field_is(v[4], 194, "SLOWDOWN_TLIMIT"@)
    &&& field_is(v[5], 195, "MEM_MAX_TLIMIT"@)
    &&& field_is(v[6], 196, "GPU_MAX_TLIMIT"@)
}

/// The fields that are asked for, with their numbers.
pub fn field_ids() -> (v: Vec<(u32, &'static str)>)
    ensures
        probed_fields(v@),
{
    vec![
        (185, "POWER_AVERAGE"),
        (186, "POWER_INSTANT"),
        (82, "MEMORY_TEMP"),
        (193, "SHUTDOWN_TLIMIT"),
        (194, "SLOWDOWN_TLIMIT"),
        (195, "MEM_MAX_TLIMIT"),
        (196, "GPU_MAX_TLIMIT"),
    ]
}

/// The answer at a place, or the reason that there is none.
pub open spec fn answer_at(
    samples: Seq<Result<String, String>>,
    missing: Seq<char>,
    i: int,
) -> Result<Seq<char>, Seq<char>> {
    if i < samples.len() {
        answer(samples[i])
    } else {
        Err(missing)
    }
}

/// An answer, as text.
pub open spec fn answer(r: Result<String, String>) -> Result<Seq<char>, Seq<char>> {
    match r {
        Ok(s) => Ok(s@),
        Err(e) => Err(e@),
    }
}

/// Pairs the fields with their answers. A field without an answer keeps its
/// place, with the reason `missing`; answers beyond the last field are dropped.
pub fn answered_fields(samples: &Vec<Result<String, String>>, missing: &str) -> (v: Vec<
    (u32, &'static str, Result<String, String>),
>)
    ensures
        v@.len() == 7,
        probed_fields(Seq::new(7, |i: int| (v@[i].0, v@[i].1))),
        forall|i: int|
            0 <= i < 7 ==> answer((#[trigger] v@[i]).2) == answer_at(samples@, missing@, i),
{
    let ids: Vec<(u32, &'static str)> = field_ids();
    let mut v: Vec<(u32, &'static str, Result<String, String>)> = Vec::new();
    let mut i: usize = 0;
    while i < ids.len()
        invariant
            probed_fields(ids@),
            i <= 7,
            v@.len() == i,
            forall|k: int|
                0 <= k < i ==> (#[trigger] v@[k]).0 == ids@[k].0 && v@[k].1 == ids@[k].1,
            forall|k: int|
                0 <= k < i ==> answer((#[trigger] v@[k]).2) == answer_at(samples@, missing@, k),
        decreases 7 - i,
    {
        let a: Result<String, String> = if i < samples.len() {
            match &samples[i] {
                Ok(s) => Ok(s.clone()),
                Err(e) => Err(e.clone()),
            }
        } else {
            Err(missing.to_owned())
        };
        v.push((ids[i].0, ids[i].1, a));
        i = i + 1;
    }
    assert(Seq::new(7, |i: int| (v@[i].0, v@[i].1)) =~= ids@);
    v
}

/// Whether an answer is missing for a given reason.
pub open spec fn missing_for<T>(r: Result<T, String>, why: Seq<char>) -> bool {
    r matches Err(e) && e@ == why
}

/// The snapshot of a GPU that cannot be asked: the versions of the driver, and
/// the same reason `why` for everything else.
pub fn unreachable_snapshot(
    nvml_version: Result<String, String>,
    driver_version: Result<String, String>,
    why: &str,
) -> (s: ProbeSnapshot)
    ensures
        s.nvml_version == nvml_version,
        s.driver_version == driver_version,
        missing_for(s.device_name, why@),
        missing_for(s.power_usage_mw, why@),
        missing_for(s.enforced_power_limit_mw, why@),
        missing_for(s.power_management_limit_mw, why@),
        missing_for(s.power_limit_constraints_mw, why@),
        missing_for(s.temperature_gpu_c, why@),
        s.thresholds@.len() == 8,
        probed_thresholds(Seq::new(8, |i: int| s.thresholds@[i].0)),
        forall|i: int| 0 <= i < 8 ==> missing_for((#[trigger] s.thresholds@[i]).1, why@),
        s.fields@.len() == 7,
        probed_fields(Seq::new(7, |i: int| (s.fields@[i].0, s.fields@[i].1))),
        forall|i: int| 0 <= i < 7 ==> missing_for((#[trigger] s.fields@[i]).2, why@),
        missing_for(s.throttle_raw, why@),
        missing_for(s.throttle_reasons, why@),
{
    let names: Vec<&'static str> = threshold_names();
    let mut thresholds: Vec<(&'static str, Result<u32, String>)> = Vec::new();
    let mut i: usize = 0;
    while i < names.len()
        invariant
            names@.len() == 8,
            i <= 8,
            thresholds@.len() == i,
            forall|k: int|
                0 <= k < i ==> (#[trigger] thresholds@[k]).0 == names@[k] && missing_for(
                    thresholds@[k].1,
                    why@,
                ),
        decreases 8 - i,
    {
        thresholds.push((names[i], Err(why.to_owned())));
        i = i + 1;
    }
    assert(Seq::new(8, |i: int| thresholds@[i].0) =~= names@);
    let none: Vec<Result<String, String>> = Vec::new();
    let fields: Vec<(u32, &'static str, Result<String, String>)> = answered_fields(&none, why);
    proof {
        assert forall|k: int| 0 <= k < 7 implies missing_for((#[trigger] fields@[k]).2, why@) by {
            assert(answer(fields@[k].2) == answer_at(none@, why@, k));
        }
    }
    ProbeSnapshot {
        nvml_version,
        driver_version,
        device_name: Err(why.to_owned()),
        power_usage_mw: Err(why.to_owned()),
        enforced_power_limit_mw: Err(why.to_owned()),
        power_management_limit_mw: Err(why.to_owned()),
        power_limit_constraints_mw: Err(why.to_owned()),
        temperature_gpu_c: Err(why.to_owned()),
        thresholds,
        fields,
        throttle_raw: Err(why.to_owned()),
        throttle_reasons: Err(why.to_owned()),
    }
}

/// The name of a throttle reason, if its bit is set.
pub open spec fn reason_name(bits: u64, bit: u64, name: Seq<char>) -> Seq<Seq<char>> {
    if bits & bit == bit {
        seq![name]
    } else {
        Seq::empty()
    }
}

/// The names of the throttle reasons in a set, given by its bits.
pub open spec fn reason_names(bits: u64) -> Seq<Seq<char>> {
    reason_name(bits, 0x1, "GPU_IDLE"@)
        + reason_name(bits, 0x2, "APPLICATIONS_CLOCKS_SETTING"@)
        + reason_name(bits, 0x4, "SW_POWER_CAP"@)
        + reason_name(bits, 0x8, "HW_SLOWDOWN"@)
        + reason_name(bits, 0x10, "SYNC_BOOST"@)
        + reason_name(bits, 0x20, "SW_THERMAL_SLOWDOWN"@)
        + reason_name(bits, 0x40, "HW_THERMAL_SLOWDOWN"@)
        + reason_name(bits, 0x80, "HW_POWER_BRAKE_SLOWDOWN"@)
        + reason_name(bits, 0x100, "DISPLAY_CLOCK_SETTING"@)
}

/// `ThrottleReasons::iter_names` of nvml-wrapper, on the set that
/// `from_bits_retain` makes of `bits`: the names of its members, in the order in
/// which the crate declares them. It names each bit once, so the older name
/// `USER_DEFINED_CLOCKS` of the second bit does not come up, nor does `NONE`,
/// which has no bit. Bits without a name are passed over.
#[verifier::external_body]
fn names_of_reasons(bits: u64) -> (v: Vec<String>)
    ensures
        diagnostics::texts(v@) == reason_names(bits),
{
    ThrottleReasons::from_bits_retain(bits).iter_names().map(|(name, _)| name.to_string()).collect()
}

/// The answers on the throttle reasons: their bits and their names, or the
/// same reason for both why there are none.
pub fn throttle_answers(bits: &Result<u64, String>) -> (r: (
    Result<u64, String>,
    Result<Vec<String>, String>,
))
    ensures
        match bits {
            Ok(b) => r.0 == Ok::<u64, String>(*b) && (r.1 matches Ok(v) && diagnostics::texts(v@)
                == reason_names(*b)),
            Err(e) => (r.0 matches Err(a) && a@ == e@) && (r.1 matches Err(b) && b@ == e@),
        },
{
    match bits {
        Ok(b) => (Ok(*b), Ok(names_of_reasons(*b))),
        Err(e) => (Err(e.clone()), Err(e.clone())),
    }
}

/// An answer as it is shown: whether there is one, and what it is.
pub open spec fn shown_text(ok: bool, inner: Seq<char>) -> Seq<char> {
    (if ok {
        "Ok("@
    } else {
        "Err("@
    }) + inner + ")"@
}

/// Shows an answer, or the reason that there is none.
pub fn shown(ok: bool, inner: &str) -> (s: String)
    ensures
        s@ == shown_text(ok, inner@),
{
    let mut s: String = if ok {
        "Ok(".to_owned()
    } else {
        "Err(".to_owned()
    };
    s.append(inner);
    s.append(")");
    s
}

/// A text as it is shown.
pub open spec fn string_item(r: Result<String, String>) -> Seq<char> {
    match r {
        Ok(s) => shown_text(true, text::debug_quoted(s@)),
        Err(e) => shown_text(false, text::debug_quoted(e@)),
    }
}

fn show_string(r: &Result<String, String>) -> (s: String)
    ensures
        s@ == string_item(*r),
{
    match r {
        Ok(t) => shown(true, quoted(t.as_str()).as_str()),
        Err(e) => shown(false, quoted(e.as_str()).as_str()),
    }
}

/// A number as it is shown.
pub open spec fn number_item(r: Result<u32, String>) -> Seq<char> {
    match r {
        Ok(n) => shown_text(true, text::decimal_text(n as nat)),
        Err(e) => shown_text(false, text::debug_quoted(e@)),
    }
}

fn show_number(r: &Result<u32, String>) -> (s: String)
    ensures
        s@ == number_item(*r),
{
    match r {
        Ok(n) => shown(true, decimal(*n as u64).as_str()),
        Err(e) => shown(false, quoted(e.as_str()).as_str()),
    }
}

/// A pair of numbers as it is shown.
pub open spec fn pair_text(a: u32, b: u32) -> Seq<char> {
    "("@ + text::decimal_text(a as nat) + ", "@ + text::decimal_text(b as nat) + ")"@
}

/// A pair of limits as it is shown.
pub open spec fn pair_item(r: Result<(u32, u32), String>) -> Seq<char> {
    match r {
        Ok(p) => shown_text(true, pair_text(p.0, p.1)),
        Err(e) => shown_text(false, text::debug_quoted(e@)),
    }
}

fn show_pair(r: &Result<(u32, u32), String>) -> (s: String)
    ensures
        s@ == pair_item(*r),
{
    match r {
        Ok(p) => {
            let mut t: String = "(".to_owned();
            t.append(decimal(p.0 as u64).as_str());
            t.append(", ");
            t.append(decimal(p.1 as u64).as_str());
            t.append(")");
            shown(true, t.as_str())
        },
        Err(e) => shown(false, quoted(e.as_str()).as_str()),
    }
}

/// Bits as they are shown.
pub open spec fn bits_item(r: Result<u64, String>) -> Seq<char> {
    match r {
        Ok(n) => shown_text(true, text::decimal_text(n as nat)),
        Err(e) => shown_text(false, text::debug_quoted(e@)),
    }
}

fn show_bits(r: &Result<u64, String>) -> (s: String)
    ensures
        s@ == bits_item(*r),
{
    match r {
        Ok(n) => shown(true, decimal(*n).as_str()),
        Err(e) => shown(false, quoted(e.as_str()).as_str()),
    }
}

/// Several texts one after the other, with commas between them.
pub open spec fn comma_joined(v: Seq<Seq<char>>) -> Seq<char>
    decreases v.len(),
{
    if v.len() == 0 {
        ""@
    } else if v.len() == 1 {
        v[0]
    } else {
        comma_joined(v.drop_last()) + ", "@ + v.last()
    }
}

/// A list of texts as it is shown.
pub open spec fn bracketed(v: Seq<Seq<char>>) -> Seq<char> {
    "["@ + comma_joined(v) + "]"@
}

/// Shows a list of texts that are already in quotes.
pub fn bracket(v: &Vec<String>) -> (s: String)
    ensures
        s@ == bracketed(diagnostics::texts(v@)),
{
    let mut s: String = "[".to_owned();
    let mut i: usize = 0;
    let ghost all = diagnostics::texts(v@);
    proof {
        reveal_strlit("");
        assert(all.take(0) =~= Seq::<Seq<char>>::empty());
        assert(s@ =~= "["@ + comma_joined(all.take(0)));
    }
    while i < v.len()
        invariant
            all == diagnostics::texts(v@),
            i <= v@.len(),
            s@ == "["@ + comma_joined(all.take(i as int)),
        decreases v@.len() - i,
    {
        if i > 0 {
            s.append(", ");
        }
        s.append(v[i].as_str());
        proof {
            reveal_strlit("");
            let t = all.take(i + 1);
            assert(t.drop_last() =~= all.take(i as int));
            assert(t.last() == v@[i as int]@);
            assert(s@ =~= "["@ + comma_joined(t));
        }
        i = i + 1;
    }
    assert(all.take(i as int) =~= all);
    s.append("]");
    s
}

/// Texts, each in quotes.
pub open spec fn each_quoted(v: Seq<Seq<char>>) -> Seq<Seq<char>> {
    Seq::new(v.len(), |i: int| text::debug_quoted(v[i]))
}

/// The names of the throttle reasons as they are shown.
pub open spec fn names_item(r: Result<Vec<String>, String>) -> Seq<char> {
    match r {
        Ok(v) => shown_text(true, bracketed(each_quoted(diagnostics::texts(v@)))),
        Err(e) => shown_text(false, text::debug_quoted(e@)),
    }
}

fn show_names(r: &Result<Vec<String>, String>) -> (s: String)
    ensures
        s@ == names_item(*r),
{
    match r {
        Ok(v) => {
            let mut q: Vec<String> = Vec::new();
            let mut i: usize = 0;
            while i < v.len()
                invariant
                    i <= v@.len(),
                    q@.len() == i,
                    forall|k: int|
                        0 <= k < i ==> (#[trigger] q@[k])@ == text::debug_quoted(v@[k]@),
                decreases v@.len() - i,
            {
                q.push(quoted(v[i].as_str()));
                i = i + 1;
            }
            assert(diagnostics::texts(q@) =~= each_quoted(diagnostics::texts(v@)));
            shown(true, bracket(&q).as_str())
        },
        Err(e) => shown(false, quoted(e.as_str()).as_str()),
    }
}

/// The items of a dump, each as it is shown.
#[derive(Debug)]
pub struct ProbeTexts {
    pub nvml_version: String,
    pub driver_version: String,
    pub device_name: String,
    pub power_usage_mw: String,
    pub enforced_power_limit_mw: String,
    pub power_management_limit_mw: String,
    pub power_limit_constraints_mw: String,
    pub temperature_gpu_c: String,
    pub thresholds: Vec<(&'static str, String)>,
    pub fields: Vec<(u32, &'static str, String)>,
    pub throttle_raw: String,
    pub throttle_reasons: String,
}

/// Whether the items are those of a snapshot, as they are shown.
pub open spec fn texts_of(s: ProbeSnapshot, t: ProbeTexts) -> bool {
    &&& t.nvml_version@ == string_item(s.nvml_version)
    &&& t.driver_version@ == string_item(s.driver_version)
    &&& t.device_name@ == string_item(s.device_name)
    &&& t.power_usage_mw@ == number_item(s.power_usage_mw)
    &&& t.enforced_power_limit_mw@ == number_item(s.enforced_power_limit_mw)
    &&& t.power_management_limit_mw@ == number_item(s.power_management_limit_mw)
    &&& t.power_limit_constraints_mw@ == pair_item(s.power_limit_constraints_mw)
    &&& t.temperature_gpu_c@ == number_item(s.temperature_gpu_c)
    &&& t.thresholds@.len() == s.thresholds@.len()
    &&& forall|i: int|
        0 <= i < s.thresholds@.len() ==> (#[trigger] t.thresholds@[i]).0 == s.thresholds@[i].0
            && t.thresholds@[i].1@ == number_item(s.thresholds@[i].1)
    &&& t.fields@.len() == s.fields@.len()
    &&& forall|i: int|
        0 <= i < s.fields@.len() ==> (#[trigger] t.fields@[i]).0 == s.fields@[i].0 && t.fields@[i].1
            == s.fields@[i].1 && t.fields@[i].2@ == string_item(s.fields@[i].2)
    &&& t.throttle_raw@ == bits_item(s.throttle_raw)
    &&& t.throttle_reasons@ == names_item(s.throttle_reasons)
}

/// Shows each item of a snapshot.
pub fn probe_texts(s: &ProbeSnapshot) -> (t: ProbeTexts)
    ensures
        texts_of(*s, t),
{
    let mut thresholds: Vec<(&'static str, String)> = Vec::new();
    let mut i: usize = 0;
    while i < s.thresholds.len()
        invariant
            i <= s.thresholds@.len(),
            thresholds@.len() == i,
            forall|k: int|
                0 <= k < i ==> (#[trigger] thresholds@[k]).0 == s.thresholds@[k].0
                    && thresholds@[k].1@ == number_item(s.thresholds@[k].1),
        decreases s.thresholds@.len() - i,
    {
        thresholds.push((s.thresholds[i].0, show_number(&s.thresholds[i].1)));
        i = i + 1;
    }
    let mut fields: Vec<(u32, &'static str, String)> = Vec::new();
    let mut j: usize = 0;
    while j < s.fields.len()
        invariant
            j <= s.fields@.len(),
            fields@.len() == j,
            forall|k: int|
                0 <= k < j ==> (#[trigger] fields@[k]).0 == s.fields@[k].0 && fields@[k].1
                    == s.fields@[k].1 && fields@[k].2@ == string_item(s.fields@[k].2),
        decreases s.fields@.len() - j,
    {
        fields.push((s.fields[j].0, s.fields[j].1, show_string(&s.fields[j].2)));
        j = j + 1;
    }
    ProbeTexts {
        nvml_version: show_string(&s.nvml_version),
        driver_version: show_string(&s.driver_version),
        device_name: show_string(&s.device_name),
        power_usage_mw: show_number(&s.power_usage_mw),
        enforced_power_limit_mw: show_number(&s.enforced_power_limit_mw),
        power_management_limit_mw: show_number(&s.power_management_limit_mw),
        power_limit_constraints_mw: show_pair(&s.power_limit_constraints_mw),
        temperature_gpu_c: show_number(&s.temperature_gpu_c),
        thresholds,
        fields,
        throttle_raw: show_bits(&s.throttle_raw),
        throttle_reasons: show_names(&s.throttle_reasons),
    }
}

/// One line of the dump.
pub open spec fn item_line(key: Seq<char>, shown: Seq<char>) -> Seq<Glyph> {
    report::plain(key) + report::plain(shown) + report::plain("\n"@)
}

fn write_item(out: &mut Report, key: &str, shown: &str)
    ensures
        final(out)@ == old(out)@ + item_line(key@, shown@),
{
    out.text(key);
    out.text(shown);
    out.text("\n");
    assert(out@ =~= old(out)@ + item_line(key@, shown@));
}

/// The lines of the first `n` thresholds.
pub open spec fn threshold_lines(v: Seq<(&'static str, String)>, n: int) -> Seq<Glyph>
    decreases n,
{
    if n <= 0 {
        Seq::empty()
    } else {
        threshold_lines(v, n - 1) + item_line("threshold."@ + v[n - 1].0@ + "="@, v[n - 1].1@)
    }
}

/// The lines of the first `n` fields.
pub open spec fn field_lines(v: Seq<(u32, &'static str, String)>, n: int) -> Seq<Glyph>
    decreases n,
{
    if n <= 0 {
        Seq::empty()
    } else {
        field_lines(v, n - 1) + item_line(
            "field."@ + text::decimal_text(v[n - 1].0 as nat) + "."@ + v[n - 1].1@ + "="@,
            v[n - 1].2@,
        )
    }
}

/// A derived line, if there is something to derive.
pub open spec fn derived_line(key: Seq<char>, x: Option<Number>) -> Seq<Glyph> {
    match x {
        Some(v) => report::plain(key) + report::value(v) + report::plain("\n"@),
        None => Seq::empty(),
    }
}

/// The first lines of the dump.
pub open spec fn head_lines(t: ProbeTexts) -> Seq<Glyph> {
    item_line("nvml_version="@, t.nvml_version@) + item_line("driver_version="@, t.driver_version@)
        + item_line("device_name="@, t.device_name@)
        + item_line("power_usage_mw="@, t.power_usage_mw@)
        + item_line("enforced_power_limit_mw="@, t.enforced_power_limit_mw@)
        + item_line("power_management_limit_mw="@, t.power_management_limit_mw@)
        + item_line("power_limit_constraints_mw="@, t.power_limit_constraints_mw@)
        + item_line("temperature_gpu_c="@, t.temperature_gpu_c@)
}

/// The whole dump: every item, answered or not, and the two margins where they
/// can be derived.
pub open spec fn dump(
    t: ProbeTexts,
    field_margin: Option<Number>,
    threshold_margin: Option<Number>,
) -> Seq<Glyph> {
    head_lines(t) + threshold_lines(t.thresholds@, t.thresholds@.len() as int) + field_lines(
        t.fields@,
        t.fields@.len() as int,
    ) + item_line("throttle_raw="@, t.throttle_raw@) + item_line(
        "throttle_reasons="@,
        t.throttle_reasons@,
    ) + derived_line("derived.margin_via_field196_c="@, field_margin) + derived_line(
        "derived.margin_via_threshold_c="@,
        threshold_margin,
    )
}

fn write_head(out: &mut Report, t: &ProbeTexts)
    ensures
        final(out)@ == old(out)@ + head_lines(*t),
{
    write_item(out, "nvml_version=", t.nvml_version.as_str());
    write_item(out, "driver_version=", t.driver_version.as_str());
    write_item(out, "device_name=", t.device_name.as_str());
    write_item(out, "power_usage_mw=", t.power_usage_mw.as_str());
    write_item(out, "enforced_power_limit_mw=", t.enforced_power_limit_mw.as_str());
    write_item(out, "power_management_limit_mw=", t.power_management_limit_mw.as_str());
    write_item(out, "power_limit_constraints_mw=", t.power_limit_constraints_mw.as_str());
    write_item(out, "temperature_gpu_c=", t.temperature_gpu_c.as_str());
    assert(out@ =~= old(out)@ + head_lines(*t));
}

fn write_thresholds(out: &mut Report, v: &Vec<(&'static str, String)>)
    ensures
        final(out)@ == old(out)@ + threshold_lines(v@, v@.len() as int),
{
    let ghost start = out@;
    let mut i: usize = 0;
    assert(start + threshold_lines(v@, 0) =~= start);
    while i < v.len()
        invariant
            i <= v@.len(),
            out@ == start + threshold_lines(v@, i as int),
        decreases v@.len() - i,
    {
        let mut key: String = "threshold.".to_owned();
        key.append(v[i].0);
        key.append("=");
        write_item(out, key.as_str(), v[i].1.as_str());
        assert(out@ =~= start + threshold_lines(v@, i + 1));
        i = i + 1;
    }
}

fn write_fields(out: &mut Report, v: &Vec<(u32, &'static str, String)>)
    ensures
        final(out)@ == old(out)@ + field_lines(v@, v@.len() as int),
{
    let ghost start = out@;
    let mut i: usize = 0;
    assert(start + field_lines(v@, 0) =~= start);
    while i < v.len()
        invariant
            i <= v@.len(),
            out@ == start + field_lines(v@, i as int),
        decreases v@.len() - i,
    {
        let mut key: String = "field.".to_owned();
        key.append(decimal(v[i].0 as u64).as_str());
        key.append(".");
        key.append(v[i].1);
        key.append("=");
        write_item(out, key.as_str(), v[i].2.as_str());
        assert(out@ =~= start + field_lines(v@, i + 1));
        i = i + 1;
    }
}

fn write_derived(out: &mut Report, key: &str, x: Option<Binary64>)
    ensures
        final(out)@ == old(out)@ + derived_line(key@, signals::number(x)),
{
    match x {
        Some(v) => {
            out.text(key);
            out.value(v);
            out.text("\n");
        },
        None => {},
    }
    assert(out@ =~= old(out)@ + derived_line(key@, signals::number(x)));
}

/// Writes the dump of items that are already as they are shown.
pub fn format_texts(
    t: &ProbeTexts,
    field_margin: Option<Binary64>,
    threshold_margin: Option<Binary64>,
) -> (out: Report)
    ensures
        out@ == dump(*t, signals::number(field_margin), signals::number(threshold_margin)),
{
    let mut out: Report = Report::new();
    write_head(&mut out, t);
    assert(Seq::<Glyph>::empty() + head_lines(*t) =~= head_lines(*t));
    write_thresholds(&mut out, &t.thresholds);
    write_fields(&mut out, &t.fields);
    write_item(&mut out, "throttle_raw=", t.throttle_raw.as_str());
    write_item(&mut out, "throttle_reasons=", t.throttle_reasons.as_str());
    write_derived(&mut out, "derived.margin_via_field196_c=", field_margin);
    write_derived(&mut out, "derived.margin_via_threshold_c=", threshold_margin);
    out
}

/// Whether the entry at `i` is the first with the name.
pub open spec fn first_named(names: Seq<Seq<char>>, name: Seq<char>, i: int) -> bool {
    0 <= i < names.len() && names[i] == name && forall|k: int|
        0 <= k < i ==> #[trigger] names[k] != name
}

/// The answer to a threshold, if there is one.
pub open spec fn threshold_answer(v: Seq<(&'static str, Result<u32, String>)>, name: Seq<char>) -> Option<
    u32,
> {
    let names = Seq::new(v.len(), |i: int| v[i].0@);
    if exists|i: int| first_named(names, name, i) {
        match v[choose|i: int| first_named(names, name, i)].1 {
            Ok(n) => Some(n),
            Err(_) => None,
        }
    } else {
        None
    }
}

/// The headroom to the threshold that the GPU must not exceed, if both it and
/// the temperature were answered.
pub open spec fn threshold_headroom(s: ProbeSnapshot) -> Option<Number> {
    match (threshold_answer(s.thresholds@, "GpuMax"@), s.temperature_gpu_c) {
        (Some(limit), Ok(temp)) => Some(
            binary64::whole(limit as nat).difference(binary64::whole(temp as nat)),
        ),
        _ => None,
    }
}

fn threshold_margin_of(s: &ProbeSnapshot) -> (m: Option<Binary64>)
    ensures
        signals::number(m) == threshold_headroom(*s),
{
    let ghost names = Seq::new(s.thresholds@.len(), |i: int| s.thresholds@[i].0@);
    let temp: u32 = match &s.temperature_gpu_c {
        Ok(t) => *t,
        Err(_) => {
            return None;
        },
    };
    let mut i: usize = 0;
    while i < s.thresholds.len()
        invariant
            names == Seq::new(s.thresholds@.len(), |i: int| s.thresholds@[i].0@),
            s.temperature_gpu_c matches Ok(t) && t == temp,
            i <= s.thresholds@.len(),
            forall|k: int| 0 <= k < i ==> #[trigger] names[k] != "GpuMax"@,
        decreases s.thresholds@.len() - i,
    {
        if same_text(s.thresholds[i].0, "GpuMax") {
            proof {
                assert(first_named(names, "GpuMax"@, i as int));
                let j = choose|j: int| first_named(names, "GpuMax"@, j);
                assert(first_named(names, "GpuMax"@, j));
                assert(i == j);
            }
            return match &s.thresholds[i].1 {
                Ok(limit) => Some(
                    Binary64::from_u64(*limit as u64).minus(Binary64::from_u64(temp as u64)),
                ),
                Err(_) => None,
            };
        }
        i = i + 1;
    }
    None
}

/// Whether the first opening bracket stands at `i`.
pub open spec fn first_open(s: Seq<char>, i: int) -> bool {
    0 <= i < s.len() && s[i] == '(' && forall|k: int| 0 <= k < i ==> #[trigger] s[k] != '('
}

/// Whether the last closing bracket stands at `j`.
pub open spec fn last_close(s: Seq<char>, j: int) -> bool {
    0 <= j < s.len() && s[j] == ')' && forall|k: int| j < k < s.len() ==> #[trigger] s[k] != ')'
}

/// What stands between the first opening and the last closing bracket, without
/// the white space around it.
pub open spec fn payload(s: Seq<char>) -> Option<Seq<char>> {
    if (exists|i: int| first_open(s, i)) && (exists|j: int| last_close(s, j)) {
        let i = choose|i: int| first_open(s, i);
        let j = choose|j: int| last_close(s, j);
        if i < j {
            Some(text::trimmed(s.subrange(i + 1, j)))
        } else {
            None
        }
    } else {
        None
    }
}

/// What stands in the brackets of a sample as it is shown, such as the digits
/// of `I64(-3)`.
pub fn numeric_payload(rendered: &str) -> (r: Option<&str>)
    ensures
        match r {
            Some(t) => payload(rendered@) == Some(t@),
            None => payload(rendered@) is None,
        },
{
    let v: Vec<char> = chars_of(rendered);
    let mut i: usize = 0;
    while i < v.len() && v[i] != '('
        invariant
            v@ == rendered@,
            i <= v@.len(),
            forall|k: int| 0 <= k < i ==> #[trigger] v@[k] != '(',
        decreases v@.len() - i,
    {
        i = i + 1;
    }
    if i == v.len() {
        return None;
    }
    assert(first_open(rendered@, i as int));
    let mut j: usize = v.len();
    while j > 0 && v[j - 1] != ')'
        invariant
            v@ == rendered@,
            j <= v@.len(),
            forall|k: int| j <= k < v@.len() ==> #[trigger] v@[k] != ')',
        decreases j,
    {
        j = j - 1;
    }
    if j == 0 {
        return None;
    }
    let close: usize = j - 1;
    assert(last_close(rendered@, close as int));
    proof {
        let a = choose|a: int| first_open(rendered@, a);
        assert(first_open(rendered@, a));
        let b = choose|b: int| last_close(rendered@, b);
        assert(last_close(rendered@, b));
        assert(a == i && b == close);
    }
    if close < i {
        return None;
    }
    let inner: &str = rendered.substring_char(i + 1, close);
    Some(trim(inner))
}

/// The answer to a field, if there is one.
pub open spec fn field_answer(
    v: Seq<(u32, &'static str, Result<String, String>)>,
    name: Seq<char>,
) -> Option<Seq<char>> {
    let names = Seq::new(v.len(), |i: int| v[i].1@);
    if exists|i: int| first_named(names, name, i) {
        match v[choose|i: int| first_named(names, name, i)].2 {
            Ok(s) => Some(s@),
            Err(_) => None,
        }
    } else {
        None
    }
}

/// The digits of the driver's own margin.
pub open spec fn margin_digits(s: ProbeSnapshot) -> Option<Seq<char>> {
    match field_answer(s.fields@, "GPU_MAX_TLIMIT"@) {
        Some(shown) => payload(shown),
        None => None,
    }
}

/// The digits of the driver's own margin, to be read as a number.
pub fn field_margin_text(s: &ProbeSnapshot) -> (r: Option<&str>)
    ensures
        match r {
            Some(t) => margin_digits(*s) == Some(t@),
            None => margin_digits(*s) is None,
        },
{
    let ghost names = Seq::new(s.fields@.len(), |k: int| s.fields@[k].1@);
    let mut i: usize = 0;
    while i < s.fields.len()
        invariant
            names == Seq::new(s.fields@.len(), |k: int| s.fields@[k].1@),
            i <= s.fields@.len(),
            forall|k: int| 0 <= k < i ==> #[trigger] names[k] != "GPU_MAX_TLIMIT"@,
        decreases s.fields@.len() - i,
    {
        if same_text(s.fields[i].1, "GPU_MAX_TLIMIT") {
            proof {
                assert(first_named(names, "GPU_MAX_TLIMIT"@, i as int));
                let j = choose|j: int| first_named(names, "GPU_MAX_TLIMIT"@, j);
                assert(first_named(names, "GPU_MAX_TLIMIT"@, j));
                assert(i == j);
            }
            return match &s.fields[i].2 {
                Ok(x) => numeric_payload(x.as_str()),
                Err(_) => None,
            };
        }
        i = i + 1;
    }
    None
}

/// Writes the dump of a snapshot. `field_margin` is the driver's own margin,
/// read from [`field_margin_text`].
pub fn format_probe(s: &ProbeSnapshot, field_margin: Option<Binary64>) -> (out: Report)
    ensures
        exists|t: ProbeTexts|
            #[trigger] texts_of(*s, t) && out@ == dump(
                t,
                signals::number(field_margin),
                threshold_headroom(*s),
            ),
{
    let t: ProbeTexts = probe_texts(s);
    let margin: Option<Binary64> = threshold_margin_of(s);
    format_texts(&t, field_margin, margin)
}

} // verus!
