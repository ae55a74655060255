//! What stands in a dump, and what is made of the answers in it.

use crate::binary64;
use crate::binary64::Number;
use crate::fusion_laws;
use crate::metrics_laws;
use crate::probe;
use crate::probe::{ProbeSnapshot, ProbeTexts};
use crate::report;
use crate::report::Glyph;
use crate::served_laws;
use crate::text;
use vstd::prelude::*;

verus! {

/// Whether a line stands in a text: a key with the sign after it, and what is
/// shown.
pub open spec fn has_line(s: Seq<Glyph>, key: Seq<char>, shown: Seq<char>) -> bool {
    metrics_laws::occurs(
        s,
        report::plain(key) + report::plain(shown) + report::plain("\n"@),
    )
}

proof fn lemma_head(t: ProbeTexts)
    ensures
        has_line(probe::head_lines(t), "nvml_version="@, t.nvml_version@),
        has_line(probe::head_lines(t), "driver_version="@, t.driver_version@),
        has_line(probe::head_lines(t), "device_name="@, t.device_name@),
        has_line(probe::head_lines(t), "power_usage_mw="@, t.power_usage_mw@),
        has_line(probe::head_lines(t), "enforced_power_limit_mw="@, t.enforced_power_limit_mw@),
        has_line(probe::head_lines(t), "power_management_limit_mw="@, t.power_management_limit_mw@),
        has_line(
            probe::head_lines(t),
            "power_limit_constraints_mw="@,
            t.power_limit_constraints_mw@,
        ),
        has_line(probe::head_lines(t), "temperature_gpu_c="@, t.temperature_gpu_c@),
{
    let a = probe::item_line("nvml_version="@, t.nvml_version@);
    let b = probe::item_line("driver_version="@, t.driver_version@);
    let c = probe::item_line("device_name="@, t.device_name@);
    let d = probe::item_line("power_usage_mw="@, t.power_usage_mw@);
    let e = probe::item_line("enforced_power_limit_mw="@, t.enforced_power_limit_mw@);
    let f = probe::item_line("power_management_limit_mw="@, t.power_management_limit_mw@);
    let g = probe::item_line("power_limit_constraints_mw="@, t.power_limit_constraints_mw@);
    let h = probe::item_line("temperature_gpu_c="@, t.temperature_gpu_c@);
    served_laws::lemma_itself(a);
    served_laws::lemma_itself(b);
    served_laws::lemma_itself(c);
    served_laws::lemma_itself(d);
    served_laws::lemma_itself(e);
    served_laws::lemma_itself(f);
    served_laws::lemma_itself(g);
    served_laws::lemma_itself(h);
    served_laws::lemma_in_front(a, b, a);
    lemma_six(a + b, c, d, e, f, g, h, a);
    served_laws::lemma_behind(a, b, b);
    lemma_six(a + b, c, d, e, f, g, h, b);
    served_laws::lemma_behind(a + b, c, c);
    lemma_five(a + b + c, d, e, f, g, h, c);
    served_laws::lemma_behind(a + b + c, d, d);
    lemma_four(a + b + c + d, e, f, g, h, d);
    served_laws::lemma_behind(a + b + c + d, e, e);
    lemma_three(a + b + c + d + e, f, g, h, e);
    served_laws::lemma_behind(a + b + c + d + e, f, f);
    served_laws::lemma_in_front(a + b + c + d + e + f, g, f);
    served_laws::lemma_in_front(a + b + c + d + e + f + g, h, f);
    served_laws::lemma_behind(a + b + c + d + e + f, g, g);
    served_laws::lemma_in_front(a + b + c + d + e + f + g, h, g);
    served_laws::lemma_behind(a + b + c + d + e + f + g, h, h);
}

proof fn lemma_three(s: Seq<Glyph>, f: Seq<Glyph>, g: Seq<Glyph>, h: Seq<Glyph>, p: Seq<Glyph>)
    requires
        metrics_laws::occurs(s, p),
    ensures
        metrics_laws::occurs(s + f + g + h, p),
{
    served_laws::lemma_in_front(s, f, p);
    served_laws::lemma_in_front(s + f, g, p);
    served_laws::lemma_in_front(s + f + g, h, p);
}

proof fn lemma_four(
    s: Seq<Glyph>,
    e: Seq<Glyph>,
    f: Seq<Glyph>,
    g: Seq<Glyph>,
    h: Seq<Glyph>,
    p: Seq<Glyph>,
)
    requires
        metrics_laws::occurs(s, p),
    ensures
        metrics_laws::occurs(s + e + f + g + h, p),
{
    served_laws::lemma_in_front(s, e, p);
    lemma_three(s + e, f, g, h, p);
}

proof fn lemma_five(
    s: Seq<Glyph>,
    d: Seq<Glyph>,
    e: Seq<Glyph>,
    f: Seq<Glyph>,
    g: Seq<Glyph>,
    h: Seq<Glyph>,
    p: Seq<Glyph>,
)
    requires
        metrics_laws::occurs(s, p),
    ensures
        metrics_laws::occurs(s + d + e + f + g + h, p),
{
    served_laws::lemma_in_front(s, d, p);
    lemma_four(s + d, e, f, g, h, p);
}

proof fn lemma_six(
    s: Seq<Glyph>,
    c: Seq<Glyph>,
    d: Seq<Glyph>,
    e: Seq<Glyph>,
    f: Seq<Glyph>,
    g: Seq<Glyph>,
    h: Seq<Glyph>,
    p: Seq<Glyph>,
)
    requires
        metrics_laws::occurs(s, p),
    ensures
        metrics_laws::occurs(s + c + d + e + f + g + h, p),
{
    served_laws::lemma_in_front(s, c, p);
    lemma_five(s + c, d, e, f, g, h, p);
}

proof fn lemma_threshold_line(v: Seq<(&'static str, String)>, n: int, i: int)
    requires
        0 <= i < n <= v.len(),
    ensures
        has_line(probe::threshold_lines(v, n), "threshold."@ + v[i].0@ + "="@, v[i].1@),
    decreases n,
{
    let rest = probe::threshold_lines(v, n - 1);
    let last = probe::item_line("threshold."@ + v[n - 1].0@ + "="@, v[n - 1].1@);
    let p = probe::item_line("threshold."@ + v[i].0@ + "="@, v[i].1@);
    if i < n - 1 {
        lemma_threshold_line(v, n - 1, i);
        served_laws::lemma_in_front(rest, last, p);
    } else {
        served_laws::lemma_itself(last);
        served_laws::lemma_behind(rest, last, p);
    }
}

proof fn lemma_field_line(v: Seq<(u32, &'static str, String)>, n: int, i: int)
    requires
        0 <= i < n <= v.len(),
    ensures
        has_line(
            probe::field_lines(v, n),
            "field."@ + text::decimal_text(v[i].0 as nat) + "."@ + v[i].1@ + "="@,
            v[i].2@,
        ),
    decreases n,
{
    let rest = probe::field_lines(v, n - 1);
    let last = probe::item_line(
        "field."@ + text::decimal_text(v[n - 1].0 as nat) + "."@ + v[n - 1].1@ + "="@,
        v[n - 1].2@,
    );
    let p = probe::item_line(
        "field."@ + text::decimal_text(v[i].0 as nat) + "."@ + v[i].1@ + "="@,
        v[i].2@,
    );
    if i < n - 1 {
        lemma_field_line(v, n - 1, i);
        served_laws::lemma_in_front(rest, last, p);
    } else {
        served_laws::lemma_itself(last);
        served_laws::lemma_behind(rest, last, p);
    }
}

proof fn lemma_dump(
    t: ProbeTexts,
    field_margin: Option<Number>,
    threshold_margin: Option<Number>,
    p: Seq<Glyph>,
)
    requires
        ({
            ||| metrics_laws::occurs(probe::head_lines(t), p)
            ||| metrics_laws::occurs(
                probe::threshold_lines(t.thresholds@, t.thresholds@.len() as int),
                p,
            )
            ||| metrics_laws::occurs(probe::field_lines(t.fields@, t.fields@.len() as int), p)
            ||| metrics_laws::occurs(probe::item_line("throttle_raw="@, t.throttle_raw@), p)
            ||| metrics_laws::occurs(probe::item_line("throttle_reasons="@, t.throttle_reasons@), p)
            ||| metrics_laws::occurs(
                probe::derived_line("derived.margin_via_field196_c="@, field_margin),
                p,
            )
            ||| metrics_laws::occurs(
                probe::derived_line("derived.margin_via_threshold_c="@, threshold_margin),
                p,
            )
        }),
    ensures
        metrics_laws::occurs(probe::dump(t, field_margin, threshold_margin), p),
{
    let o = |s: Seq<Glyph>| metrics_laws::occurs(s, p);
    let a = probe::head_lines(t);
    let b = probe::threshold_lines(t.thresholds@, t.thresholds@.len() as int);
    let c = probe::field_lines(t.fields@, t.fields@.len() as int);
    let d = probe::item_line("throttle_raw="@, t.throttle_raw@);
    let e = probe::item_line("throttle_reasons="@, t.throttle_reasons@);
    let f = probe::derived_line("derived.margin_via_field196_c="@, field_margin);
    let g = probe::derived_line("derived.margin_via_threshold_c="@, threshold_margin);
    if o(a) {
        lemma_six(a, b, c, d, e, f, g, p);
    } else if o(b) {
        served_laws::lemma_behind(a, b, p);
        lemma_five(a + b, c, d, e, f, g, p);
    } else if o(c) {
        served_laws::lemma_behind(a + b, c, p);
        lemma_four(a + b + c, d, e, f, g, p);
    } else if o(d) {
        served_laws::lemma_behind(a + b + c, d, p);
        lemma_three(a + b + c + d, e, f, g, p);
    } else if o(e) {
        served_laws::lemma_behind(a + b + c + d, e, p);
        served_laws::lemma_in_front(a + b + c + d + e, f, p);
        served_laws::lemma_in_front(a + b + c + d + e + f, g, p);
    } else if o(f) {
        served_laws::lemma_behind(a + b + c + d + e, f, p);
        served_laws::lemma_in_front(a + b + c + d + e + f, g, p);
    } else {
        served_laws::lemma_behind(a + b + c + d + e + f, g, p);
    }
}

/// Every item stands in the dump under its own key, answered or not.
pub proof fn law_items_are_dumped(
    t: ProbeTexts,
    field_margin: Option<Number>,
    threshold_margin: Option<Number>,
)
    ensures
        ({
            let s = probe::dump(t, field_margin, threshold_margin);
            &&& has_line(s, "nvml_version="@, t.nvml_version@)
            &&& has_line(s, "driver_version="@, t.driver_version@)
            &&& has_line(s, "device_name="@, t.device_name@)
            &&& has_line(s, "power_usage_mw="@, t.power_usage_mw@)
            &&& has_line(s, "enforced_power_limit_mw="@, t.enforced_power_limit_mw@)
            &&& has_line(s, "power_management_limit_mw="@, t.power_management_limit_mw@)
            &&& has_line(s, "power_limit_constraints_mw="@, t.power_limit_constraints_mw@)
            &&& has_line(s, "temperature_gpu_c="@, t.temperature_gpu_c@)
            &&& has_line(s, "throttle_raw="@, t.throttle_raw@)
            &&& has_line(s, "throttle_reasons="@, t.throttle_reasons@)
        }),
{
    lemma_head(t);
    let line = |key: Seq<char>, shown: Seq<char>|
        report::plain(key) + report::plain(shown) + report::plain("\n"@);
    lemma_dump(t, field_margin, threshold_margin, line("nvml_version="@, t.nvml_version@));
    lemma_dump(t, field_margin, threshold_margin, line("driver_version="@, t.driver_version@));
    lemma_dump(t, field_margin, threshold_margin, line("device_name="@, t.device_name@));
    lemma_dump(t, field_margin, threshold_margin, line("power_usage_mw="@, t.power_usage_mw@));
    lemma_dump(
        t,
        field_margin,
        threshold_margin,
        line("enforced_power_limit_mw="@, t.enforced_power_limit_mw@),
    );
    lemma_dump(
        t,
        field_margin,
        threshold_margin,
        line("power_management_limit_mw="@, t.power_management_limit_mw@),
    );
    lemma_dump(
        t,
        field_margin,
        threshold_margin,
        line("power_limit_constraints_mw="@, t.power_limit_constraints_mw@),
    );
    lemma_dump(t, field_margin, threshold_margin, line("temperature_gpu_c="@, t.temperature_gpu_c@));
    served_laws::lemma_itself(line("throttle_raw="@, t.throttle_raw@));
    lemma_dump(t, field_margin, threshold_margin, line("throttle_raw="@, t.throttle_raw@));
    served_laws::lemma_itself(line("throttle_reasons="@, t.throttle_reasons@));
    lemma_dump(t, field_margin, threshold_margin, line("throttle_reasons="@, t.throttle_reasons@));
}

/// Every threshold and every field stands in the dump under its name, a field
/// under its number too, and so do the margins that could be derived.
pub proof fn law_lists_are_dumped(
    t: ProbeTexts,
    field_margin: Option<Number>,
    threshold_margin: Option<Number>,
    i: int,
)
    ensures
        ({
            let s = probe::dump(t, field_margin, threshold_margin);
            &&& 0 <= i < t.thresholds@.len() ==> has_line(
                s,
                "threshold."@ + t.thresholds@[i].0@ + "="@,
                t.thresholds@[i].1@,
            )
            &&& 0 <= i < t.fields@.len() ==> has_line(
                s,
                "field."@ + text::decimal_text(t.fields@[i].0 as nat) + "."@ + t.fields@[i].1@
                    + "="@,
                t.fields@[i].2@,
            )
            &&& field_margin matches Some(x) ==> metrics_laws::occurs(
                s,
                report::plain("derived.margin_via_field196_c="@) + report::value(x)
                    + report::plain("\n"@),
            )
            &&& threshold_margin matches Some(x) ==> metrics_laws::occurs(
                s,
                report::plain("derived.margin_via_threshold_c="@) + report::value(x)
                    + report::plain("\n"@),
            )
        }),
{
    if 0 <= i < t.thresholds@.len() {
        lemma_threshold_line(t.thresholds@, t.thresholds@.len() as int, i);
        lemma_dump(
            t,
            field_margin,
            threshold_margin,
            probe::item_line("threshold."@ + t.thresholds@[i].0@ + "="@, t.thresholds@[i].1@),
        );
    }
    if 0 <= i < t.fields@.len() {
        lemma_field_line(t.fields@, t.fields@.len() as int, i);
        lemma_dump(
            t,
            field_margin,
            threshold_margin,
            probe::item_line(
                "field."@ + text::decimal_text(t.fields@[i].0 as nat) + "."@ + t.fields@[i].1@
                    + "="@,
                t.fields@[i].2@,
            ),
        );
    }
    if let Some(x) = field_margin {
        let p = probe::derived_line("derived.margin_via_field196_c="@, field_margin);
        served_laws::lemma_itself(p);
        lemma_dump(t, field_margin, threshold_margin, p);
    }
    if let Some(x) = threshold_margin {
        let p = probe::derived_line("derived.margin_via_threshold_c="@, threshold_margin);
        served_laws::lemma_itself(p);
        lemma_dump(t, field_margin, threshold_margin, p);
    }
}

/// The headroom is the limit of the GPU less its temperature, by the first
/// threshold of that name. Without a limit or a temperature there is none.
pub proof fn law_headroom_is_limit_less_temperature(s: ProbeSnapshot, i: int)
    requires
        0 <= i < s.thresholds@.len(),
        s.thresholds@[i].0@ == "GpuMax"@,
        forall|k: int| 0 <= k < i ==> (#[trigger] s.thresholds@[k]).0@ != "GpuMax"@,
    ensures
        match (s.thresholds@[i].1, s.temperature_gpu_c) {
            (Ok(limit), Ok(temp)) => limit >= temp ==> probe::threshold_headroom(s) == Some(
                binary64::whole((limit - temp) as nat),
            ),
            _ => probe::threshold_headroom(s) is None,
        },
{
    let names = Seq::new(s.thresholds@.len(), |k: int| s.thresholds@[k].0@);
    assert(probe::first_named(names, "GpuMax"@, i));
    let j = choose|j: int| probe::first_named(names, "GpuMax"@, j);
    assert(probe::first_named(names, "GpuMax"@, j));
    assert(i == j) by {
        if i < j {
            assert(names[i] != "GpuMax"@);
        }
        if j < i {
            assert(s.thresholds@[j].0@ == names[j]);
        }
    }
    match (s.thresholds@[i].1, s.temperature_gpu_c) {
        (Ok(limit), Ok(temp)) => {
            if limit >= temp {
                fusion_laws::lemma_whole_difference(limit as nat, temp as nat);
            }
        },
        _ => {},
    }
}

/// Without a threshold of that name there is no headroom.
pub proof fn law_no_headroom_without_a_limit(s: ProbeSnapshot)
    requires
        forall|k: int|
            0 <= k < s.thresholds@.len() ==> (#[trigger] s.thresholds@[k]).0@ != "GpuMax"@,
    ensures
        probe::threshold_headroom(s) is None,
{
    let names = Seq::new(s.thresholds@.len(), |k: int| s.thresholds@[k].0@);
    if exists|i: int| probe::first_named(names, "GpuMax"@, i) {
        let i = choose|i: int| probe::first_named(names, "GpuMax"@, i);
        assert(s.thresholds@[i].0@ == names[i]);
    }
}

/// What stands in brackets is taken out of them: after the first that opens, up
/// to the last that closes, whatever stands around and between.
pub proof fn law_payload_stands_in_brackets(
    front: Seq<char>,
    inner: Seq<char>,
    back: Seq<char>,
)
    requires
        forall|k: int| 0 <= k < front.len() ==> #[trigger] front[k] != '(',
        forall|k: int| 0 <= k < back.len() ==> #[trigger] back[k] != ')',
    ensures
        probe::payload(front + seq!['('] + inner + seq![')'] + back) == Some(text::trimmed(inner)),
{
    let s = front + seq!['('] + inner + seq![')'] + back;
    let a = front.len() as int;
    let b = a + 1 + inner.len();
    assert(s[a] == '(');
    assert(s[b] == ')');
    assert forall|k: int| 0 <= k < a implies #[trigger] s[k] != '(' by {
        assert(s[k] == front[k]);
    }
    assert forall|k: int| b < k < s.len() implies #[trigger] s[k] != ')' by {
        assert(s[k] == back[k - b - 1]);
    }
    assert(probe::first_open(s, a));
    assert(probe::last_close(s, b));
    let i = choose|i: int| probe::first_open(s, i);
    let j = choose|j: int| probe::last_close(s, j);
    assert(probe::first_open(s, i) && probe::last_close(s, j));
    assert(i == a && j == b);
    assert(s.subrange(a + 1, b) =~= inner);
}

/// Nothing is taken out of a text that has no bracket of one of the kinds, or
/// whose last closing one stands before its first opening one.
pub proof fn law_no_payload_without_brackets(s: Seq<char>, n: int)
    requires
        0 <= n <= s.len(),
        forall|k: int| 0 <= k < n ==> #[trigger] s[k] != '(',
        forall|k: int| n <= k < s.len() ==> #[trigger] s[k] != ')',
    ensures
        probe::payload(s) is None,
{
    if (exists|i: int| probe::first_open(s, i)) && (exists|j: int| probe::last_close(s, j)) {
        let i = choose|i: int| probe::first_open(s, i);
        let j = choose|j: int| probe::last_close(s, j);
        assert(probe::first_open(s, i) && probe::last_close(s, j));
        assert(i >= n && j < n);
    }
}

/// A field's digits are those in the brackets of the first answer of its name.
pub proof fn law_margin_is_that_of_its_field(s: ProbeSnapshot, i: int)
    requires
        0 <= i < s.fields@.len(),
        s.fields@[i].1@ == "GPU_MAX_TLIMIT"@,
        forall|k: int| 0 <= k < i ==> (#[trigger] s.fields@[k]).1@ != "GPU_MAX_TLIMIT"@,
    ensures
        match s.fields@[i].2 {
            Ok(shown) => probe::margin_digits(s) == probe::payload(shown@),
            Err(_) => probe::margin_digits(s) is None,
        },
{
    let names = Seq::new(s.fields@.len(), |k: int| s.fields@[k].1@);
    assert(probe::first_named(names, "GPU_MAX_TLIMIT"@, i));
    let j = choose|j: int| probe::first_named(names, "GPU_MAX_TLIMIT"@, j);
    assert(probe::first_named(names, "GPU_MAX_TLIMIT"@, j));
    assert(i == j) by {
        if i < j {
            assert(names[i] != "GPU_MAX_TLIMIT"@);
        }
        if j < i {
            assert(s.fields@[j].1@ == names[j]);
        }
    }
}

/// How answers are shown: a number in digits, a reason in quotes, and which of
/// the two it is before them.
pub proof fn law_answers_are_shown(n: u32, bits: u64, a: u32, b: u32, why: String)
    ensures
        probe::number_item(Ok::<u32, String>(n)) == "Ok("@ + text::decimal_text(n as nat) + ")"@,
        probe::number_item(Err::<u32, String>(why)) == "Err("@ + text::debug_quoted(why@) + ")"@,
        probe::bits_item(Ok::<u64, String>(bits)) == "Ok("@ + text::decimal_text(bits as nat)
            + ")"@,
        probe::bits_item(Err::<u64, String>(why)) == "Err("@ + text::debug_quoted(why@) + ")"@,
        probe::string_item(Ok::<String, String>(why)) == "Ok("@ + text::debug_quoted(why@) + ")"@,
        probe::string_item(Err::<String, String>(why)) == "Err("@ + text::debug_quoted(why@) + ")"@,
        probe::pair_item(Err::<(u32, u32), String>(why)) == "Err("@ + text::debug_quoted(why@)
            + ")"@,
        probe::pair_item(Ok::<(u32, u32), String>((a, b))) == "Ok("@ + ("("@ + text::decimal_text(
            a as nat,
        ) + ", "@ + text::decimal_text(b as nat) + ")"@) + ")"@,
        probe::names_item(Err::<Vec<String>, String>(why)) == "Err("@ + text::debug_quoted(why@)
            + ")"@,
{
}

/// Two lists of texts one after the other are shown as each of them, with a comma
/// and a blank between.
pub proof fn law_joined_lists(v: Seq<Seq<char>>, w: Seq<Seq<char>>)
    requires
        v.len() > 0,
        w.len() > 0,
    ensures
        probe::comma_joined(v + w) == probe::comma_joined(v) + ", "@ + probe::comma_joined(w),
        probe::comma_joined(seq![v[0]]) == v[0],
    decreases w.len(),
{
    let all = v + w;
    assert(all.last() == w.last());
    if w.len() == 1 {
        assert(all.drop_last() =~= v);
    } else {
        law_joined_lists(v, w.drop_last());
        assert(all.drop_last() =~= v + w.drop_last());
        assert(probe::comma_joined(all) =~= probe::comma_joined(v) + ", "@ + probe::comma_joined(w));
    }
}

proof fn lemma_bits(b: u64)
    by (bit_vector)
    ensures
        b & 0x1 == 0x1 <==> b % 2 == 1,
        b & 0x2 == 0x2 <==> b / 2 % 2 == 1,
        b & 0x4 == 0x4 <==> b / 4 % 2 == 1,
        b & 0x8 == 0x8 <==> b / 8 % 2 == 1,
        b & 0x10 == 0x10 <==> b / 16 % 2 == 1,
        b & 0x20 == 0x20 <==> b / 32 % 2 == 1,
        b & 0x40 == 0x40 <==> b / 64 % 2 == 1,
        b & 0x80 == 0x80 <==> b / 128 % 2 == 1,
        b & 0x100 == 0x100 <==> b / 256 % 2 == 1,
{
}

proof fn lemma_low_bits_decide(b: u64, c: u64)
    by (bit_vector)
    requires
        b % 512 == c % 512,
    ensures
        b & 0x1 == c & 0x1,
        b & 0x2 == c & 0x2,
        b & 0x4 == c & 0x4,
        b & 0x8 == c & 0x8,
        b & 0x10 == c & 0x10,
        b & 0x20 == c & 0x20,
        b & 0x40 == c & 0x40,
        b & 0x80 == c & 0x80,
        b & 0x100 == c & 0x100,
{
}

/// How many of the nine lowest bits are set.
pub open spec fn low_bits(b: u64) -> nat {
    (b % 2 + b / 2 % 2 + b / 4 % 2 + b / 8 % 2 + b / 16 % 2 + b / 32 % 2 + b / 64 % 2 + b / 128 % 2
        + b / 256 % 2) as nat
}

/// As many reasons are named as bits are set that have a name.
pub proof fn law_reasons_are_counted(b: u64)
    ensures
        probe::reason_names(b).len() == low_bits(b),
{
    lemma_bits(b);
}

/// Bits that have no name make no difference.
pub proof fn law_nameless_bits_do_not_matter(b: u64, c: u64)
    requires
        b % 512 == c % 512,
    ensures
        probe::reason_names(b) == probe::reason_names(c),
{
    lemma_low_bits_decide(b, c);
}

} // verus!
