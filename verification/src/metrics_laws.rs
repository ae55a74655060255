//! What holds of the metrics that are served.

use crate::binary64::{Binary64, Number};
use crate::metrics;
use crate::metrics::{Metrics, VERSION};
use crate::report;
use crate::report::Glyph;
use crate::signals::SignalKind;
use crate::text;
use vstd::prelude::*;

verus! {

/// Whether `p` stands in `s` from `i` on.
pub open spec fn occurs_at(s: Seq<Glyph>, p: Seq<Glyph>, i: int) -> bool {
    0 <= i && i + p.len() <= s.len() && forall|j: int|
        0 <= j < p.len() ==> s[i + j] == #[trigger] p[j]
}

/// Whether `p` stands somewhere in `s`.
pub open spec fn occurs(s: Seq<Glyph>, p: Seq<Glyph>) -> bool {
    exists|i: int| occurs_at(s, p, i)
}

/// The label by which a signal is served.
pub open spec fn label(k: SignalKind) -> Seq<Glyph> {
    report::plain("signal=\""@) + report::plain(k.name()) + report::plain("\""@)
}

/// Whether a text is empty or ends with its line.
pub open spec fn ends_line(s: Seq<Glyph>) -> bool {
    s.len() > 0 ==> s.last() == report::glyph('\n')
}

/// Whether a quote at `q` follows the end of `signal=`.
pub open spec fn marks(s: Seq<Glyph>, q: int) -> bool {
    &&& 3 <= q < s.len()
    &&& s[q] == report::glyph('"')
    &&& s[q - 1] == report::glyph('=')
    &&& s[q - 2] == report::glyph('l')
    &&& s[q - 3] == report::glyph('a')
}

/// Whether no label of a signal stands in `s`, nor arises where it is joined
/// with the like.
pub open spec fn harmless(s: Seq<Glyph>) -> bool {
    &&& forall|q: int| !#[trigger] marks(s, q)
    &&& s.len() > 0 ==> s[0] != report::glyph('=') && s[0] != report::glyph('l') && s.last()
        != report::glyph('=')
}

/// As `marks`, of characters.
pub open spec fn marks_text(s: Seq<char>, q: int) -> bool {
    3 <= q < s.len() && s[q] == '"' && s[q - 1] == '=' && s[q - 2] == 'l' && s[q - 3] == 'a'
}

/// As `harmless`, of characters.
pub open spec fn harmless_text(s: Seq<char>) -> bool {
    &&& forall|q: int| !#[trigger] marks_text(s, q)
    &&& s.len() > 0 ==> s[0] != '=' && s[0] != 'l' && s.last() != '='
}

/// Whether a text holds no quote.
pub open spec fn quoteless(s: Seq<char>) -> bool {
    forall|i: int| 0 <= i < s.len() ==> #[trigger] s[i] != '"'
}

pub proof fn lemma_text(s: Seq<char>)
    requires
        harmless_text(s),
    ensures
        harmless(report::plain(s)),
{
    let g = report::plain(s);
    assert forall|q: int| !#[trigger] marks(g, q) by {
        assert(!marks_text(s, q));
    }
}

proof fn lemma_joined(a: Seq<Glyph>, b: Seq<Glyph>)
    requires
        harmless(a),
        harmless(b),
    ensures
        harmless(a + b),
{
    let s = a + b;
    assert forall|q: int| !#[trigger] marks(s, q) by {
        assert(!marks(a, q));
        assert(!marks(b, q - a.len()));
    }
}

pub proof fn lemma_count(n: nat)
    ensures
        harmless(report::count(n)),
        report::count(n).len() > 0,
{
    lemma_decimal(n);
    assert(harmless_text(text::decimal_text(n)));
    lemma_text(text::decimal_text(n));
}

proof fn lemma_decimal(n: nat)
    ensures
        text::decimal_text(n).len() > 0,
        forall|i: int|
            0 <= i < text::decimal_text(n).len() ==> '0' <= #[trigger] text::decimal_text(n)[i]
                <= '9',
    decreases n,
{
    if n >= 10 {
        lemma_decimal(n / 10);
    }
}

/// A harmless text holds no label.
pub proof fn lemma_harmless(s: Seq<Glyph>, k: SignalKind)
    requires
        harmless(s),
    ensures
        !occurs(s, label(k)),
{
    let p = label(k);
    reveal_strlit("signal=\"");
    assert forall|i: int| !occurs_at(s, p, i) by {
        if occurs_at(s, p, i) {
            assert(p[4] == report::glyph('a'));
            assert(p[5] == report::glyph('l'));
            assert(p[6] == report::glyph('='));
            assert(p[7] == report::glyph('"'));
            assert(marks(s, i + 7));
        }
    }
}

pub proof fn lemma_name(k: SignalKind)
    ensures
        k.name().len() >= 8,
        quoteless(k.name()),
        harmless_text(k.name()),
        forall|i: int| 0 <= i < k.name().len() ==> #[trigger] k.name()[i] != '\n',
{
    reveal_strlit("mem_temp");
    reveal_strlit("thermal_margin");
    reveal_strlit("gpu_temp");
    reveal_strlit("gpu_power");
    reveal_strlit("cpu_temp");
}

/// Different signals have different names.
pub proof fn lemma_names_differ(k: SignalKind, other: SignalKind)
    ensures
        k.name() == other.name() ==> k == other,
{
    reveal_strlit("mem_temp");
    reveal_strlit("thermal_margin");
    reveal_strlit("gpu_temp");
    reveal_strlit("gpu_power");
    reveal_strlit("cpu_temp");
    if k.name() == other.name() {
        assert(k.name().len() == other.name().len());
        assert(k.name()[0] == other.name()[0]);
        assert(k.name()[4] == other.name()[4]);
    }
}

/// What ends with its line can be looked at apart from what follows.
proof fn lemma_apart(a: Seq<Glyph>, b: Seq<Glyph>, k: SignalKind)
    requires
        ends_line(a),
        ends_line(b),
    ensures
        ends_line(a + b),
        occurs(a + b, label(k)) <==> occurs(a, label(k)) || occurs(b, label(k)),
{
    let s = a + b;
    let p = label(k);
    lemma_name(k);
    reveal_strlit("signal=\"");
    reveal_strlit("\"");
    assert forall|j: int| 0 <= j < p.len() implies #[trigger] p[j] != report::glyph('\n') by {
        if 8 <= j < 8 + k.name().len() {
            assert(p[j] == report::glyph(k.name()[j - 8]));
        }
    }
    if occurs(s, p) {
        let i = choose|i: int| occurs_at(s, p, i);
        let n = a.len() as int;
        if i + p.len() <= n {
            assert forall|j: int| 0 <= j < p.len() implies a[i + j] == #[trigger] p[j] by {
                assert(s[i + j] == p[j]);
            }
            assert(occurs_at(a, p, i));
        } else if i >= n {
            assert forall|j: int| 0 <= j < p.len() implies b[i - n + j] == #[trigger] p[j] by {
                assert(s[i + j] == p[j]);
            }
            assert(occurs_at(b, p, i - n));
        } else {
            assert(s[i + (n - 1 - i)] == p[n - 1 - i]);
            assert(s[n - 1] == a.last());
        }
    }
    if occurs(a, p) {
        let i = choose|i: int| occurs_at(a, p, i);
        assert forall|j: int| 0 <= j < p.len() implies s[i + j] == #[trigger] p[j] by {
            assert(a[i + j] == p[j]);
        }
        assert(occurs_at(s, p, i));
    }
    if occurs(b, p) {
        let i = choose|i: int| occurs_at(b, p, i);
        assert forall|j: int| 0 <= j < p.len() implies s[a.len() + i + j] == #[trigger] p[j] by {
            assert(b[i + j] == p[j]);
        }
        assert(occurs_at(s, p, a.len() + i));
    }
    assert(b.len() == 0 ==> s =~= a);
}

/// Whether `head` opens the label of a signal, and opens no other.
pub open spec fn opens_label(head: Seq<char>) -> bool {
    let n = head.len();
    &&& n >= 8
    &&& head[n - 8] == 's'
    &&& head[n - 7] == 'i'
    &&& head[n - 6] == 'g'
    &&& head[n - 5] == 'n'
    &&& head[n - 4] == 'a'
    &&& head[n - 3] == 'l'
    &&& head[n - 2] == '='
    &&& head[n - 1] == '"'
    &&& forall|q: int| #[trigger] marks_text(head, q) ==> q == n - 1
}

/// A line that is labelled with `key` holds the label of the signal of that
/// name, and no other.
proof fn lemma_labelled(head: Seq<char>, key: SignalKind, rest: Seq<Glyph>, k: SignalKind)
    requires
        opens_label(head),
        harmless(rest),
        rest.len() > 0,
        rest[0] == report::glyph('"'),
    ensures
        ({
            let line = report::plain(head) + report::plain(key.name()) + rest;
            &&& occurs(line, label(k)) <==> key == k
            &&& forall|i: int| #[trigger] occurs_at(line, label(k), i) ==> i == head.len() - 8
        }),
{
    let g = report::plain(head);
    let name = report::plain(key.name());
    let body = name + rest;
    let s = g + name + rest;
    let p = label(k);
    let n = head.len() as int;
    lemma_name(key);
    lemma_name(k);
    lemma_names_differ(k, key);
    lemma_text(key.name());
    lemma_joined(name, rest);
    assert(s =~= g + body);
    reveal_strlit("signal=\"");
    reveal_strlit("\"");
    let len = k.name().len() as int;
    assert(p.len() == 9 + len);
    assert(p[8 + len] == report::glyph('"'));
    assert forall|j: int| 0 <= j < len implies #[trigger] p[8 + j] == report::glyph(
        k.name()[j],
    ) by {
    }
    assert forall|i: int| #[trigger] occurs_at(s, p, i) implies i == n - 8 && key == k by {
        assert(s[i + 4] == p[4]);
        assert(s[i + 5] == p[5]);
        assert(s[i + 6] == p[6]);
        assert(s[i + 7] == p[7]);
        assert(marks(s, i + 7));
        // The mark is the one that the head ends with.
        assert(!marks(body, i + 7 - n));
        assert(i + 7 < n) by {
            if i + 7 >= n {
                assert(i + 7 - n < 3);
                assert(s[i + 7] == report::glyph(key.name()[i + 7 - n]));
            }
        }
        assert(marks_text(head, i + 7));
        assert(i + 8 == n);
        let m = key.name().len() as int;
        assert(s[n + m] == rest[0]);
        assert(s[i + (8 + len)] == p[8 + len]);
        if len < m {
            assert(s[n + len] == report::glyph(key.name()[len]));
        } else if len > m {
            assert(s[i + (8 + m)] == p[8 + m]);
            assert(k.name()[m] != '"');
        }
        assert(len == m);
        assert forall|j: int| 0 <= j < len implies #[trigger] key.name()[j] == k.name()[j] by {
            assert(s[i + (8 + j)] == p[8 + j]);
            assert(s[n + j] == report::glyph(key.name()[j]));
        }
        assert(key.name() =~= k.name());
    }
    if key == k {
        assert forall|j: int| 0 <= j < p.len() implies s[n - 8 + j] == #[trigger] p[j] by {
            if 8 <= j < 8 + len {
                assert(p[8 + (j - 8)] == report::glyph(k.name()[j - 8]));
            }
        }
        assert(occurs_at(s, p, n - 8));
    }
}

/// Lines hold a label if one of them does.
proof fn lemma_lines<T>(
    entries: Seq<T>,
    f: spec_fn(T) -> Seq<Glyph>,
    hit: spec_fn(T) -> bool,
    k: SignalKind,
)
    requires
        forall|i: int|
            0 <= i < entries.len() ==> ends_line(f(#[trigger] entries[i])) && (occurs(
                f(entries[i]),
                label(k),
            ) <==> hit(entries[i])),
    ensures
        ends_line(metrics::lines(entries, f)),
        occurs(metrics::lines(entries, f), label(k)) <==> exists|i: int|
            0 <= i < entries.len() && hit(#[trigger] entries[i]),
    decreases entries.len(),
{
    if entries.len() == 0 {
        lemma_harmless(Seq::empty(), k);
    } else {
        let front = entries.drop_last();
        assert forall|i: int| 0 <= i < front.len() implies ends_line(f(#[trigger] front[i])) && (
        occurs(f(front[i]), label(k)) <==> hit(front[i])) by {
            assert(front[i] == entries[i]);
        }
        lemma_lines(front, f, hit, k);
        let last = entries[entries.len() - 1];
        assert(last == entries.last());
        lemma_apart(metrics::lines(front, f), f(last), k);
        if exists|i: int| 0 <= i < entries.len() && hit(#[trigger] entries[i]) {
            let i = choose|i: int| 0 <= i < entries.len() && hit(#[trigger] entries[i]);
            if i < front.len() {
                assert(hit(front[i]));
            }
        }
        if exists|i: int| 0 <= i < front.len() && hit(#[trigger] front[i]) {
            let i = choose|i: int| 0 <= i < front.len() && hit(#[trigger] front[i]);
            assert(hit(entries[i]));
        }
    }
}

proof fn lemma_harmless_lines<T>(entries: Seq<T>, f: spec_fn(T) -> Seq<Glyph>)
    requires
        forall|i: int|
            0 <= i < entries.len() ==> harmless(f(#[trigger] entries[i])) && ends_line(
                f(entries[i]),
            ),
    ensures
        harmless(metrics::lines(entries, f)),
        ends_line(metrics::lines(entries, f)),
    decreases entries.len(),
{
    if entries.len() > 0 {
        let front = entries.drop_last();
        assert forall|i: int| 0 <= i < front.len() implies harmless(f(#[trigger] front[i]))
            && ends_line(f(front[i])) by {
            assert(front[i] == entries[i]);
        }
        lemma_harmless_lines(front, f);
        let last = entries[entries.len() - 1];
        let before = metrics::lines(front, f);
        lemma_joined(before, f(last));
        assert(f(last).len() == 0 ==> before + f(last) =~= before);
    }
}

proof fn lemma_line_break()
    ensures
        harmless(report::plain("\n"@)),
        report::plain("\n"@).len() == 1,
        report::plain("\n"@)[0] == report::glyph('\n'),
{
    reveal_strlit("\n");
    assert(harmless_text("\n"@));
    lemma_text("\n"@);
}

proof fn lemma_scalar(head: Seq<char>, name: Seq<char>, value: Seq<Glyph>)
    requires
        harmless_text(head),
        harmless_text(name),
        harmless(value),
    ensures
        harmless(metrics::scalar(head, name, value)),
        ends_line(metrics::scalar(head, name, value)),
{
    let a = report::plain(head);
    let b = report::plain(name);
    lemma_text(head);
    lemma_text(name);
    lemma_line_break();
    lemma_joined(a, b);
    lemma_joined(a + b, value);
    lemma_joined(a + b + value, report::plain("\n"@));
}

/// The end of a line with a label: the closing quote, a value and a break.
pub proof fn lemma_line_end(value: Seq<Glyph>)
    requires
        harmless(value),
    ensures
        harmless(report::plain("\"} "@) + value + report::plain("\n"@)),
        ends_line(report::plain("\"} "@) + value + report::plain("\n"@)),
        report::plain("\"} "@).len() == 3,
        report::plain("\"} "@)[0] == report::glyph('"'),
{
    reveal_strlit("\"} ");
    assert(harmless_text("\"} "@));
    lemma_text("\"} "@);
    lemma_line_break();
    lemma_joined(report::plain("\"} "@), value);
    lemma_joined(report::plain("\"} "@) + value, report::plain("\n"@));
}

/// A line with a label that is not that of a signal.
proof fn lemma_other_line(head: Seq<char>, key: Seq<Glyph>, value: Seq<Glyph>)
    requires
        harmless_text(head),
        harmless(key),
        harmless(value),
    ensures
        harmless(report::plain(head) + key + report::plain("\"} "@) + value + report::plain("\n"@)),
        ends_line(
            report::plain(head) + key + report::plain("\"} "@) + value + report::plain("\n"@),
        ),
{
    let a = report::plain(head) + key;
    let b = report::plain("\"} "@) + value + report::plain("\n"@);
    lemma_text(head);
    lemma_joined(report::plain(head), key);
    lemma_line_end(value);
    lemma_joined(a, b);
    assert(a + report::plain("\"} "@) + value + report::plain("\n"@) =~= a + b);
}

/// A heading and what follows it end with their lines.
pub proof fn lemma_family(help: Seq<char>, body: Seq<Glyph>)
    requires
        help.len() > 0,
        help.last() == '\n',
        ends_line(body),
    ensures
        ends_line(report::plain(help)),
        ends_line(report::plain(help) + body),
{
    if body.len() == 0 {
        assert(report::plain(help) + body =~= report::plain(help));
    }
}

pub proof fn lemma_duty_part(m: Metrics)
    ensures
        harmless(metrics::duty_part(m)),
        ends_line(metrics::duty_part(m)),
{
    reveal_strlit("# HELP unifand_duty_percent Last duty written per channel.\n# TYPE unifand_duty_percent gauge\n");
    let help = "# HELP unifand_duty_percent Last duty written per channel.\n# TYPE unifand_duty_percent gauge\n"@;
    assert(harmless_text(help));
    reveal_strlit("unifand_duty_percent{channel=\"");
    let name = "unifand_duty_percent{channel=\""@;
    assert(harmless_text(name));
    let entries = m.duty.entries();
    let f = |e| metrics::duty_line(e);
    assert forall|i: int| 0 <= i < entries.len() implies harmless(f(#[trigger] entries[i]))
        && ends_line(f(entries[i])) by {
        let e: (u8, u8) = entries[i];
        lemma_count(e.0 as nat);
        lemma_count(e.1 as nat);
        lemma_other_line(name, report::count(e.0 as nat), report::count(e.1 as nat));
    }
    lemma_harmless_lines(entries, f);
    lemma_text(help);
    lemma_joined(report::plain(help), metrics::lines(entries, f));
    lemma_family(help, metrics::lines(entries, f));
}

pub proof fn lemma_rpm_part(m: Metrics)
    ensures
        harmless(metrics::rpm_part(m)),
        ends_line(metrics::rpm_part(m)),
{
    reveal_strlit("# HELP unifand_fan_rpm Fan speed per channel.\n# TYPE unifand_fan_rpm gauge\n");
    let help = "# HELP unifand_fan_rpm Fan speed per channel.\n# TYPE unifand_fan_rpm gauge\n"@;
    assert(harmless_text(help));
    reveal_strlit("unifand_fan_rpm{channel=\"");
    let name = "unifand_fan_rpm{channel=\""@;
    assert(harmless_text(name));
    let entries = m.rpm.entries();
    let f = |e| metrics::rpm_line(e);
    assert forall|i: int| 0 <= i < entries.len() implies harmless(f(#[trigger] entries[i]))
        && ends_line(f(entries[i])) by {
        let e: (u8, u16) = entries[i];
        lemma_count(e.0 as nat);
        lemma_count(e.1 as nat);
        lemma_other_line(name, report::count(e.0 as nat), report::count(e.1 as nat));
    }
    lemma_harmless_lines(entries, f);
    lemma_text(help);
    lemma_joined(report::plain(help), metrics::lines(entries, f));
    lemma_family(help, metrics::lines(entries, f));
}

pub proof fn lemma_flags_part(m: Metrics)
    ensures
        harmless(metrics::flags_part(m)),
        ends_line(metrics::flags_part(m)),
{
    reveal_strlit("# HELP unifand_degraded 1 when GPU sensor unavailable.\n# TYPE unifand_degraded gauge\n");
    let first_help = "# HELP unifand_degraded 1 when GPU sensor unavailable.\n# TYPE unifand_degraded gauge\n"@;
    assert(harmless_text(first_help));
    reveal_strlit("unifand_degraded ");
    assert(harmless_text("unifand_degraded "@));
    reveal_strlit("# HELP unifand_fallback_active 1 when all sensors are lost and fallback_duty is being forced.\n# TYPE unifand_fallback_active gauge\n");
    let second_help = "# HELP unifand_fallback_active 1 when all sensors are lost and fallback_duty is being forced.\n# TYPE unifand_fallback_active gauge\n"@;
    assert(harmless_text(second_help));
    reveal_strlit("unifand_fallback_active ");
    let name = "unifand_fallback_active "@;
    assert(harmless_text(name));
    reveal_strlit("# HELP unifand_hub_present 1 when the SL V2 hub is currently open and initialized.\n# TYPE unifand_hub_present gauge\n");
    let third_help = "# HELP unifand_hub_present 1 when the SL V2 hub is currently open and initialized.\n# TYPE unifand_hub_present gauge\n"@;
    assert(harmless_text(third_help));
    reveal_strlit("unifand_hub_present ");
    assert(harmless_text("unifand_hub_present "@));
    lemma_count(0);
    lemma_count(1);
    let a = metrics::scalar(first_help, "unifand_degraded "@, metrics::flag(m.degraded));
    let b = metrics::scalar(second_help, name, metrics::flag(m.fallback_active));
    let c = metrics::scalar(third_help, "unifand_hub_present "@, metrics::flag(m.hub_present));
    lemma_scalar(first_help, "unifand_degraded "@, metrics::flag(m.degraded));
    lemma_scalar(second_help, name, metrics::flag(m.fallback_active));
    lemma_scalar(third_help, "unifand_hub_present "@, metrics::flag(m.hub_present));
    lemma_joined(a, b);
    lemma_joined(a + b, c);
}

pub proof fn lemma_errors_part(m: Metrics)
    ensures
        harmless(metrics::errors_part(m)),
        ends_line(metrics::errors_part(m)),
{
    reveal_strlit("# HELP unifand_hid_errors_total HID write/read failures, by kind.\n# TYPE unifand_hid_errors_total counter\n");
    let first_help = "# HELP unifand_hid_errors_total HID write/read failures, by kind.\n# TYPE unifand_hid_errors_total counter\n"@;
    assert(harmless_text(first_help));
    reveal_strlit("unifand_hid_errors_total{kind=\"write\"} ");
    let first_name = "unifand_hid_errors_total{kind=\"write\"} "@;
    assert(harmless_text(first_name));
    reveal_strlit("unifand_hid_errors_total{kind=\"read\"} ");
    let second_name = "unifand_hid_errors_total{kind=\"read\"} "@;
    assert(harmless_text(second_name));
    reveal_strlit("# HELP unifand_rgb_errors_total RGB write failures.\n# TYPE unifand_rgb_errors_total counter\n");
    let second_help = "# HELP unifand_rgb_errors_total RGB write failures.\n# TYPE unifand_rgb_errors_total counter\n"@;
    assert(harmless_text(second_help));
    reveal_strlit("unifand_rgb_errors_total ");
    let third_name = "unifand_rgb_errors_total "@;
    assert(harmless_text(third_name));
    reveal_strlit("# HELP unifand_led_state Alarm ladder state (0 normal, 1 sustained-hot, 2 near-limit, 3 fault).\n# TYPE unifand_led_state gauge\n");
    let third_help = "# HELP unifand_led_state Alarm ladder state (0 normal, 1 sustained-hot, 2 near-limit, 3 fault).\n# TYPE unifand_led_state gauge\n"@;
    assert(harmless_text(third_help));
    reveal_strlit("unifand_led_state ");
    assert(harmless_text("unifand_led_state "@));
    lemma_line_break();
    lemma_count(m.hid_errors_write as nat);
    lemma_count(m.hid_errors_read as nat);
    lemma_count(m.rgb_errors as nat);
    lemma_count(m.led_state as nat);
    let end = report::plain("\n"@);
    let a = report::plain(first_help);
    let b = report::plain(first_name);
    let c = report::count(m.hid_errors_write as nat);
    let d = report::plain(second_name);
    let e = report::count(m.hid_errors_read as nat);
    lemma_text(first_help);
    lemma_text(first_name);
    lemma_text(second_name);
    lemma_joined(a, b);
    lemma_joined(a + b, c);
    lemma_joined(a + b + c, end);
    lemma_joined(a + b + c + end, d);
    lemma_joined(a + b + c + end + d, e);
    lemma_joined(a + b + c + end + d + e, end);
    let s = a + b + c + end + d + e + end;
    let t = metrics::scalar(second_help, third_name, report::count(m.rgb_errors as nat));
    let u = metrics::scalar(third_help, "unifand_led_state "@, report::count(m.led_state as nat));
    lemma_scalar(second_help, third_name, report::count(m.rgb_errors as nat));
    lemma_scalar(third_help, "unifand_led_state "@, report::count(m.led_state as nat));
    lemma_joined(s, t);
    lemma_joined(s + t, u);
}

pub proof fn lemma_limit_part(m: Metrics)
    ensures
        harmless(metrics::limit_part(m)),
        ends_line(metrics::limit_part(m)),
{
    reveal_strlit("# HELP unifand_gpu_power_limit_watts Enforced GPU power limit; enables percent-of-limit dashboards regardless of curve unit.\n# TYPE unifand_gpu_power_limit_watts gauge\n");
    let help = "# HELP unifand_gpu_power_limit_watts Enforced GPU power limit; enables percent-of-limit dashboards regardless of curve unit.\n# TYPE unifand_gpu_power_limit_watts gauge\n"@;
    assert(harmless_text(help));
    reveal_strlit("unifand_gpu_power_limit_watts ");
    let name = "unifand_gpu_power_limit_watts "@;
    assert(harmless_text(name));
    if let Some(limit) = m.gpu_power_limit_w {
        lemma_scalar(help, name, report::value(limit@));
    }
}

proof fn lemma_reason_line(reason: Seq<char>, active: bool)
    requires
        harmless_text(reason),
    ensures
        harmless(metrics::reason_line(reason, active)),
        ends_line(metrics::reason_line(reason, active)),
{
    reveal_strlit("unifand_throttle_active{reason=\"");
    let name = "unifand_throttle_active{reason=\""@;
    assert(harmless_text(name));
    lemma_count(0);
    lemma_count(1);
    lemma_text(reason);
    lemma_other_line(name, report::plain(reason), metrics::flag(active));
}

pub proof fn lemma_throttle_part(m: Metrics)
    ensures
        harmless(metrics::throttle_part(m)),
        ends_line(metrics::throttle_part(m)),
{
    reveal_strlit("# HELP unifand_throttle_active NVML throttle reason currently asserted.\n# TYPE unifand_throttle_active gauge\n");
    let help = "# HELP unifand_throttle_active NVML throttle reason currently asserted.\n# TYPE unifand_throttle_active gauge\n"@;
    assert(harmless_text(help));
    reveal_strlit("sw_thermal");
    assert(harmless_text("sw_thermal"@));
    reveal_strlit("hw_thermal");
    assert(harmless_text("hw_thermal"@));
    reveal_strlit("hw_power_brake");
    assert(harmless_text("hw_power_brake"@));
    reveal_strlit("sw_power_cap");
    assert(harmless_text("sw_power_cap"@));
    if let Some(t) = m.throttle {
        let a = report::plain(help);
        let b = metrics::reason_line("sw_thermal"@, t.sw_thermal);
        let c = metrics::reason_line("hw_thermal"@, t.hw_thermal);
        let d = metrics::reason_line("hw_power_brake"@, t.hw_power_brake);
        let e = metrics::reason_line("sw_power_cap"@, t.sw_power_cap);
        lemma_text(help);
        lemma_reason_line("sw_thermal"@, t.sw_thermal);
        lemma_reason_line("hw_thermal"@, t.hw_thermal);
        lemma_reason_line("hw_power_brake"@, t.hw_power_brake);
        lemma_reason_line("sw_power_cap"@, t.sw_power_cap);
        lemma_joined(a, b);
        lemma_joined(a + b, c);
        lemma_joined(a + b + c, d);
        lemma_joined(a + b + c + d, e);
        assert(e.len() > 0);
    }
}

pub proof fn lemma_floor_part(m: Metrics)
    ensures
        harmless(metrics::floor_part(m)),
        ends_line(metrics::floor_part(m)),
{
    reveal_strlit("# HELP unifand_throttle_floor_active 1 while the throttle floor is raising applied duty (including hold window).\n# TYPE unifand_throttle_floor_active gauge\n");
    let help = "# HELP unifand_throttle_floor_active 1 while the throttle floor is raising applied duty (including hold window).\n# TYPE unifand_throttle_floor_active gauge\n"@;
    assert(harmless_text(help));
    reveal_strlit("unifand_throttle_floor_active ");
    let name = "unifand_throttle_floor_active "@;
    assert(harmless_text(name));
    lemma_count(0);
    lemma_count(1);
    lemma_scalar(help, name, metrics::flag(m.throttle_floor_active));
}

pub proof fn lemma_tail_part(m: Metrics)
    ensures
        harmless(metrics::tail_part(m)),
        ends_line(metrics::tail_part(m)),
{
    reveal_strlit("# HELP unifand_last_tick_timestamp_seconds Unix time the control loop last completed a tick (or startup hub-wait progress).\n# TYPE unifand_last_tick_timestamp_seconds gauge\n");
    let first_help = "# HELP unifand_last_tick_timestamp_seconds Unix time the control loop last completed a tick (or startup hub-wait progress).\n# TYPE unifand_last_tick_timestamp_seconds gauge\n"@;
    assert(harmless_text(first_help));
    reveal_strlit("unifand_last_tick_timestamp_seconds ");
    let first_name = "unifand_last_tick_timestamp_seconds "@;
    assert(harmless_text(first_name));
    reveal_strlit("# HELP unifand_build_info Build metadata, value is always 1.\n# TYPE unifand_build_info gauge\n");
    let second_help = "# HELP unifand_build_info Build metadata, value is always 1.\n# TYPE unifand_build_info gauge\n"@;
    assert(harmless_text(second_help));
    reveal_strlit("unifand_build_info{version=\"");
    let second_name = "unifand_build_info{version=\""@;
    assert(harmless_text(second_name));
    reveal_strlit("\"} 1\n");
    assert(harmless_text("\"} 1\n"@));
    reveal_strlit("0.6.3");
    assert(harmless_text(VERSION@));
    lemma_count(m.last_tick as nat);
    lemma_scalar(first_help, first_name, report::count(m.last_tick as nat));
    let a = metrics::scalar(first_help, first_name, report::count(m.last_tick as nat));
    let b = report::plain(second_help);
    let c = report::plain(second_name);
    let d = report::plain(VERSION@);
    let e = report::plain("\"} 1\n"@);
    lemma_text(second_help);
    lemma_text(second_name);
    lemma_text(VERSION@);
    lemma_text("\"} 1\n"@);
    lemma_joined(a, b);
    lemma_joined(a + b, c);
    lemma_joined(a + b + c, d);
    lemma_joined(a + b + c + d, e);
}

/// A line that ends with its value right after the label of a signal.
pub proof fn lemma_signal_line(head: Seq<char>, key: SignalKind, value: Seq<Glyph>, k: SignalKind)
    requires
        opens_label(head),
        harmless(value),
    ensures
        ({
            let line = report::plain(head) + report::plain(key.name()) + report::plain("\"} "@)
                + value + report::plain("\n"@);
            &&& ends_line(line)
            &&& occurs(line, label(k)) <==> key == k
            &&& forall|i: int| #[trigger] occurs_at(line, label(k), i) ==> i == head.len() - 8
        }),
{
    let rest = report::plain("\"} "@) + value + report::plain("\n"@);
    let front = report::plain(head) + report::plain(key.name());
    lemma_line_end(value);
    lemma_labelled(head, key, rest, k);
    assert(front + report::plain("\"} "@) + value + report::plain("\n"@) =~= front + rest);
}

pub proof fn lemma_value_line(e: (Seq<char>, (Binary64, SignalKind)), key: SignalKind, k: SignalKind)
    requires
        e.0 == key.name(),
    ensures
        ends_line(metrics::value_line(e)),
        occurs(metrics::value_line(e), label(k)) <==> key == k,
        forall|i: int| #[trigger]
            occurs_at(metrics::value_line(e), label(k), i) ==> i
                == "unifand_signal_value{signal=\""@.len() - 8,
{
    reveal_strlit("unifand_signal_value{signal=\"");
    let head = "unifand_signal_value{signal=\""@;
    assert(opens_label(head));
    reveal_strlit("\",unit=\"");
    assert(harmless_text("\",unit=\""@));
    reveal_strlit("watts");
    reveal_strlit("celsius");
    let unit = (e.1).1.unit_name();
    assert(harmless_text(unit));
    let value = report::value((e.1).0@);
    let a = report::plain("\",unit=\""@);
    let b = report::plain(unit);
    let c = report::plain("\"} "@) + value + report::plain("\n"@);
    lemma_text("\",unit=\""@);
    lemma_text(unit);
    lemma_joined(a, b);
    lemma_line_end(value);
    lemma_joined(a + b, c);
    let rest = a + b + c;
    let front = report::plain(head) + report::plain(key.name());
    lemma_labelled(head, key, rest, k);
    assert(metrics::value_line(e) =~= front + rest);
}

/// The signal of a name.
pub open spec fn signal_of(name: Seq<char>) -> SignalKind {
    choose|k: SignalKind| k.name() == name
}

pub proof fn lemma_values_part(m: Metrics, k: SignalKind)
    requires
        m.wf(),
    ensures
        ends_line(metrics::values_part(m)),
        occurs(metrics::values_part(m), label(k)) <==> m.signal_values@.contains_key(k.name()),
{
    let help = "# HELP unifand_signal_value Conditioned (smoothed) value of each available input signal.\n# TYPE unifand_signal_value gauge\n"@;
    reveal_strlit("# HELP unifand_signal_value Conditioned (smoothed) value of each available input signal.\n# TYPE unifand_signal_value gauge\n");
    assert(harmless_text(help));
    let entries = m.signal_values.entries();
    let hit = |e: (Seq<char>, (Binary64, SignalKind))| e.0 == k.name();
    let f = |e| metrics::value_line(e);
    assert forall|i: int| 0 <= i < entries.len() implies ends_line(f(#[trigger] entries[i])) && (
    occurs(f(entries[i]), label(k)) <==> hit(entries[i])) by {
        let e = entries[i];
        m.signal_values.lemma_entry(i);
        let key = signal_of(e.0);
        assert(key.name() == e.0);
        lemma_names_differ(k, key);
        lemma_value_line(e, key, k);
    }
    lemma_lines(entries, f, hit, k);
    lemma_text(help);
    lemma_harmless(report::plain(help), k);
    lemma_family(help, metrics::lines(entries, f));
    lemma_apart(report::plain(help), metrics::lines(entries, f), k);
    lemma_harmless(Seq::empty(), k);
    if m.signal_values@.contains_key(k.name()) {
        let i = choose|i: int| m.signal_values.at(k.name(), i);
        assert(hit(entries[i]));
    }
    if exists|i: int| 0 <= i < entries.len() && hit(#[trigger] entries[i]) {
        let i = choose|i: int| 0 <= i < entries.len() && hit(#[trigger] entries[i]);
        m.signal_values.lemma_entry(i);
    }
}

pub proof fn lemma_errors_by_signal_part(m: Metrics, k: SignalKind)
    requires
        m.wf(),
    ensures
        ends_line(metrics::errors_by_signal_part(m)),
        occurs(metrics::errors_by_signal_part(m), label(k)) <==> m.signal_errors@.contains_key(
            k.name(),
        ),
{
    let help = "# HELP unifand_signal_errors_total Real read failures per signal; NotSupported is not counted (it means the signal is absent).\n# TYPE unifand_signal_errors_total counter\n"@;
    reveal_strlit("# HELP unifand_signal_errors_total Real read failures per signal; NotSupported is not counted (it means the signal is absent).\n# TYPE unifand_signal_errors_total counter\n");
    assert(harmless_text(help));
    let entries = m.signal_errors.entries();
    let hit = |e: (Seq<char>, u64)| e.0 == k.name();
    let f = |e| metrics::error_line(e);
    assert forall|i: int| 0 <= i < entries.len() implies ends_line(f(#[trigger] entries[i])) && (
    occurs(f(entries[i]), label(k)) <==> hit(entries[i])) by {
        let e = entries[i];
        m.signal_errors.lemma_entry(i);
        let key = signal_of(e.0);
        assert(key.name() == e.0);
        lemma_names_differ(k, key);
        reveal_strlit("unifand_signal_errors_total{signal=\"");
        let head = "unifand_signal_errors_total{signal=\""@;
        assert(opens_label(head));
        lemma_count(e.1 as nat);
        lemma_signal_line(head, key, report::count(e.1 as nat), k);
    }
    lemma_lines(entries, f, hit, k);
    lemma_text(help);
    lemma_harmless(report::plain(help), k);
    lemma_family(help, metrics::lines(entries, f));
    lemma_apart(report::plain(help), metrics::lines(entries, f), k);
    lemma_harmless(Seq::empty(), k);
    if m.signal_errors@.contains_key(k.name()) {
        let i = choose|i: int| m.signal_errors.at(k.name(), i);
        assert(hit(entries[i]));
    }
    if exists|i: int| 0 <= i < entries.len() && hit(#[trigger] entries[i]) {
        let i = choose|i: int| 0 <= i < entries.len() && hit(#[trigger] entries[i]);
        m.signal_errors.lemma_entry(i);
    }
}

pub proof fn lemma_candidates_part(m: Metrics, k: SignalKind)
    requires
        m.wf(),
    ensures
        ends_line(metrics::candidates_part(m)),
        occurs(metrics::candidates_part(m), label(k)) <==> m.signal_candidate_duty@.contains_key(
            k.name(),
        ),
{
    let help = "# HELP unifand_signal_candidate_duty_percent Duty each available signal's curve commands this tick.\n# TYPE unifand_signal_candidate_duty_percent gauge\n"@;
    reveal_strlit("# HELP unifand_signal_candidate_duty_percent Duty each available signal's curve commands this tick.\n# TYPE unifand_signal_candidate_duty_percent gauge\n");
    assert(harmless_text(help));
    let entries = m.signal_candidate_duty.entries();
    let hit = |e: (Seq<char>, u8)| e.0 == k.name();
    let f = |e| metrics::candidate_line(e);
    assert forall|i: int| 0 <= i < entries.len() implies ends_line(f(#[trigger] entries[i])) && (
    occurs(f(entries[i]), label(k)) <==> hit(entries[i])) by {
        let e = entries[i];
        m.signal_candidate_duty.lemma_entry(i);
        let key = signal_of(e.0);
        assert(key.name() == e.0);
        lemma_names_differ(k, key);
        reveal_strlit("unifand_signal_candidate_duty_percent{signal=\"");
        let head = "unifand_signal_candidate_duty_percent{signal=\""@;
        assert(opens_label(head));
        lemma_count(e.1 as nat);
        lemma_signal_line(head, key, report::count(e.1 as nat), k);
    }
    lemma_lines(entries, f, hit, k);
    lemma_text(help);
    lemma_harmless(report::plain(help), k);
    lemma_family(help, metrics::lines(entries, f));
    lemma_apart(report::plain(help), metrics::lines(entries, f), k);
    let help2 = "# HELP unifand_control_signal One-hot: 1 for the signal driving the applied duty, 0 for other available signals.\n# TYPE unifand_control_signal gauge\n"@;
    reveal_strlit("# HELP unifand_control_signal One-hot: 1 for the signal driving the applied duty, 0 for other available signals.\n# TYPE unifand_control_signal gauge\n");
    assert(harmless_text(help2));
    let g = |e| metrics::control_line(e, m.control_signal);
    assert forall|i: int| 0 <= i < entries.len() implies ends_line(g(#[trigger] entries[i])) && (
    occurs(g(entries[i]), label(k)) <==> hit(entries[i])) by {
        let e = entries[i];
        m.signal_candidate_duty.lemma_entry(i);
        let key = signal_of(e.0);
        assert(key.name() == e.0);
        lemma_names_differ(k, key);
        reveal_strlit("unifand_control_signal{signal=\"");
        let head_text = "unifand_control_signal{signal=\""@;
        assert(opens_label(head_text));
        lemma_count(0);
        lemma_count(1);
        let followed = m.control_signal matches Some(w) && w.name() == e.0;
        lemma_signal_line(head_text, key, metrics::flag(followed), k);
    }
    lemma_lines(entries, g, hit, k);
    lemma_text(help2);
    lemma_harmless(report::plain(help2), k);
    lemma_family(help2, metrics::lines(entries, g));
    let first = report::plain(help) + metrics::lines(entries, f);
    lemma_apart(first, report::plain(help2), k);
    lemma_apart(first + report::plain(help2), metrics::lines(entries, g), k);
    lemma_harmless(Seq::empty(), k);
    if m.signal_candidate_duty@.contains_key(k.name()) {
        let i = choose|i: int| m.signal_candidate_duty.at(k.name(), i);
        assert(hit(entries[i]));
    }
    if exists|i: int| 0 <= i < entries.len() && hit(#[trigger] entries[i]) {
        let i = choose|i: int| 0 <= i < entries.len() && hit(#[trigger] entries[i]);
        m.signal_candidate_duty.lemma_entry(i);
    }
}

/// Whether something is known of a signal: its value, what it asks for, or that
/// it failed.
pub open spec fn knows(m: Metrics, k: SignalKind) -> bool {
    ||| m.signal_values@.contains_key(k.name())
    ||| m.signal_candidate_duty@.contains_key(k.name())
    ||| m.signal_errors@.contains_key(k.name())
}

pub proof fn lemma_temps_part(m: Metrics, k: SignalKind)
    ensures
        ends_line(metrics::temps_part(m)),
{
    let help = "# HELP unifand_temp_celsius Sensor and control temperatures.\n# TYPE unifand_temp_celsius gauge\n"@;
    reveal_strlit("# HELP unifand_temp_celsius Sensor and control temperatures.\n# TYPE unifand_temp_celsius gauge\n");
    let entries = m.temps.entries();
    let f = |e| metrics::temp_line(e);
    let hit = |e: (Seq<char>, Binary64)| occurs(metrics::temp_line(e), label(k));
    lemma_line_break();
    assert forall|i: int| 0 <= i < entries.len() implies ends_line(f(#[trigger] entries[i])) && (
    occurs(f(entries[i]), label(k)) <==> hit(entries[i])) by {
    }
    lemma_lines(entries, f, hit, k);
    lemma_family(help, metrics::lines(entries, f));
}

/// The label of a signal is served exactly if something is known of the signal:
/// an absent one is not served at all, not even as zero. The sources of
/// temperatures are free text, and one that spells the label is the only other
/// way in which it can come up.
pub proof fn law_label_is_served_iff_known(m: Metrics, k: SignalKind)
    requires
        m.wf(),
    ensures
        occurs(metrics::rendered(m), label(k)) <==> knows(m, k) || occurs(
            metrics::temps_part(m),
            label(k),
        ),
{
    let s1 = metrics::temps_part(m) + metrics::duty_part(m);
    let s2 = s1 + metrics::rpm_part(m);
    let s3 = s2 + metrics::flags_part(m);
    let s4 = s3 + metrics::errors_part(m);
    let s5 = s4 + metrics::values_part(m);
    let s6 = s5 + metrics::candidates_part(m);
    let s7 = s6 + metrics::limit_part(m);
    let s8 = s7 + metrics::throttle_part(m);
    let s9 = s8 + metrics::floor_part(m);
    let s10 = s9 + metrics::errors_by_signal_part(m);
    lemma_temps_part(m, k);
    lemma_duty_part(m);
    lemma_rpm_part(m);
    lemma_flags_part(m);
    lemma_errors_part(m);
    lemma_values_part(m, k);
    lemma_candidates_part(m, k);
    lemma_limit_part(m);
    lemma_throttle_part(m);
    lemma_floor_part(m);
    lemma_errors_by_signal_part(m, k);
    lemma_tail_part(m);
    lemma_harmless(metrics::duty_part(m), k);
    lemma_harmless(metrics::rpm_part(m), k);
    lemma_harmless(metrics::flags_part(m), k);
    lemma_harmless(metrics::errors_part(m), k);
    lemma_harmless(metrics::limit_part(m), k);
    lemma_harmless(metrics::throttle_part(m), k);
    lemma_harmless(metrics::floor_part(m), k);
    lemma_harmless(metrics::tail_part(m), k);
    lemma_apart(metrics::temps_part(m), metrics::duty_part(m), k);
    lemma_apart(s1, metrics::rpm_part(m), k);
    lemma_apart(s2, metrics::flags_part(m), k);
    lemma_apart(s3, metrics::errors_part(m), k);
    lemma_apart(s4, metrics::values_part(m), k);
    lemma_apart(s5, metrics::candidates_part(m), k);
    lemma_apart(s6, metrics::limit_part(m), k);
    lemma_apart(s7, metrics::throttle_part(m), k);
    lemma_apart(s8, metrics::floor_part(m), k);
    lemma_apart(s9, metrics::errors_by_signal_part(m), k);
    lemma_apart(s10, metrics::tail_part(m), k);
}

/// Whether the source of a temperature cannot be taken for a label: it holds no
/// quote and does not end with an equals sign.
pub open spec fn plain_source(source: Seq<char>) -> bool {
    quoteless(source) && (source.len() > 0 ==> source.last() != '=')
}

proof fn lemma_temp_line(e: (Seq<char>, Binary64))
    requires
        plain_source(e.0),
    ensures
        harmless(metrics::temp_line(e)),
        ends_line(metrics::temp_line(e)),
{
    reveal_strlit("unifand_temp_celsius{source=\"");
    let name = "unifand_temp_celsius{source=\""@;
    assert(harmless_text(name));
    lemma_text(name);
    let head = report::plain(name);
    let front = head + report::plain(e.0);
    assert forall|q: int| !#[trigger] marks(front, q) by {
        assert(!marks(head, q));
        if head.len() <= q < front.len() {
            assert(front[q] == report::glyph(e.0[q - head.len()]));
        }
    }
    let value = report::value(e.1@);
    let end = report::plain("\"} "@) + value + report::plain("\n"@);
    lemma_line_end(value);
    lemma_joined(front, end);
    assert(metrics::temp_line(e) =~= front + end);
}

/// Sources like those of the daemon spell no label.
pub proof fn law_plain_sources_spell_no_label(m: Metrics, k: SignalKind)
    requires
        m.wf(),
        forall|source: Seq<char>| #[trigger]
            m.temps@.contains_key(source) ==> plain_source(source),
    ensures
        !occurs(metrics::temps_part(m), label(k)),
{
    let help = "# HELP unifand_temp_celsius Sensor and control temperatures.\n# TYPE unifand_temp_celsius gauge\n"@;
    reveal_strlit("# HELP unifand_temp_celsius Sensor and control temperatures.\n# TYPE unifand_temp_celsius gauge\n");
    assert(harmless_text(help));
    let entries = m.temps.entries();
    let f = |e| metrics::temp_line(e);
    assert forall|i: int| 0 <= i < entries.len() implies harmless(f(#[trigger] entries[i]))
        && ends_line(f(entries[i])) by {
        m.temps.lemma_entry(i);
        lemma_temp_line(entries[i]);
    }
    lemma_harmless_lines(entries, f);
    lemma_text(help);
    lemma_joined(report::plain(help), metrics::lines(entries, f));
    lemma_harmless(metrics::temps_part(m), k);
}

/// A change of the metrics, as far as it is about signals.
pub enum Update {
    /// `set_signal_value`.
    Value { signal: SignalKind, v: Binary64 },
    /// `set_candidate_duty`.
    Candidate { signal: SignalKind, duty: u8 },
    /// `inc_signal_error`.
    Error { signal: SignalKind },
    /// `set_control_signal`.
    Control { winner: SignalKind },
    /// Any other setter.
    Other,
}

/// Whether a change makes something known of a signal. Which one is followed
/// does not.
pub open spec fn is_about(u: Update, k: SignalKind) -> bool {
    match u {
        Update::Value { signal, .. } => signal == k,
        Update::Candidate { signal, .. } => signal == k,
        Update::Error { signal } => signal == k,
        Update::Control { .. } => false,
        Update::Other => false,
    }
}

/// What a change does to what is known of the signals.
pub open spec fn updated(before: Metrics, after: Metrics, u: Update) -> bool {
    &&& after.signal_values@ == match u {
        Update::Value { signal, v } => before.signal_values@.insert(signal.name(), (v, signal)),
        _ => before.signal_values@,
    }
    &&& after.signal_candidate_duty@ == match u {
        Update::Candidate { signal, duty } => before.signal_candidate_duty@.insert(
            signal.name(),
            duty,
        ),
        _ => before.signal_candidate_duty@,
    }
    &&& after.signal_errors@ == match u {
        Update::Error { signal } => before.signal_errors@.insert(
            signal.name(),
            (before.errors_of(signal) + 1) as u64,
        ),
        _ => before.signal_errors@,
    }
    &&& after.control_signal == match u {
        Update::Control { winner } => Some(winner),
        _ => before.control_signal,
    }
}

/// Whether `states` are metrics that start fresh and go through `updates`.
pub open spec fn is_history(states: Seq<Metrics>, updates: Seq<Update>) -> bool {
    &&& states.len() == updates.len() + 1
    &&& states[0].is_fresh(states[0].poll_interval_secs, states[0].last_tick)
    &&& forall|i: int|
        #![trigger updates[i]]
        0 <= i < updates.len() ==> updated(states[i], states[i + 1], updates[i])
}

proof fn lemma_known_iff_set(states: Seq<Metrics>, updates: Seq<Update>, k: SignalKind, n: int)
    requires
        is_history(states, updates),
        0 <= n < states.len(),
    ensures
        knows(states[n], k) <==> exists|i: int| 0 <= i < n && is_about(#[trigger] updates[i], k),
    decreases n,
{
    if n > 0 {
        lemma_known_iff_set(states, updates, k, n - 1);
        let u = updates[n - 1];
        assert(updated(states[n - 1], states[n], u));
        match u {
            Update::Value { signal, .. } => lemma_names_differ(k, signal),
            Update::Candidate { signal, .. } => lemma_names_differ(k, signal),
            Update::Error { signal } => lemma_names_differ(k, signal),
            _ => {},
        }
        if exists|i: int| 0 <= i < n - 1 && is_about(#[trigger] updates[i], k) {
            let i = choose|i: int| 0 <= i < n - 1 && is_about(#[trigger] updates[i], k);
            assert(is_about(updates[i], k));
        }
    } else {
        assert(!states[0].signal_values@.dom().contains(k.name()));
        assert(!states[0].signal_candidate_duty@.dom().contains(k.name()));
        assert(!states[0].signal_errors@.dom().contains(k.name()));
    }
}

/// Whatever was done with the metrics, the label of a signal is served exactly
/// if its value or its candidate duty was set, or a failure of it counted, but
/// for sources of temperatures that spell it.
pub proof fn law_label_is_served_iff_set(
    states: Seq<Metrics>,
    updates: Seq<Update>,
    k: SignalKind,
)
    requires
        is_history(states, updates),
        states.last().wf(),
    ensures
        occurs(metrics::rendered(states.last()), label(k)) <==> (exists|i: int|
            0 <= i < updates.len() && is_about(#[trigger] updates[i], k)) || occurs(
            metrics::temps_part(states.last()),
            label(k),
        ),
{
    lemma_known_iff_set(states, updates, k, states.len() - 1);
    law_label_is_served_iff_known(states.last(), k);
}

} // verus!
