//! How the signal that is followed is served: one line for each signal that
//! asks for a duty, and a one in at most one of them.

use crate::binary64::Binary64;
use crate::metrics;
use crate::metrics::Metrics;
use crate::metrics_laws;
use crate::metrics_laws::Update;
use crate::report;
use crate::report::Glyph;
use crate::signals::SignalKind;
use vstd::prelude::*;

verus! {

/// What a line that says whether a signal is followed starts with.
pub open spec fn series(k: SignalKind) -> Seq<Glyph> {
    report::plain("unifand_control_signal{signal=\""@) + report::plain(k.name()) + report::plain(
        "\"} "@,
    )
}

/// The line that says whether a signal is followed.
pub open spec fn series_line(k: SignalKind, followed: bool) -> Seq<Glyph> {
    series(k) + metrics::flag(followed) + report::plain("\n"@)
}

/// Whether the line `line` stands in `s` from `i` on, with nothing before it in
/// its line.
pub open spec fn line_at(s: Seq<Glyph>, line: Seq<Glyph>, i: int) -> bool {
    metrics_laws::occurs_at(s, line, i) && (i == 0 || s[i - 1] == report::glyph('\n'))
}

/// Whether `line` stands in `s`, and what it starts with stands nowhere else.
pub open spec fn once(s: Seq<Glyph>, start: Seq<Glyph>, line: Seq<Glyph>) -> bool {
    exists|i: int| #[trigger]
        line_at(s, line, i) && forall|j: int| #[trigger]
            metrics_laws::occurs_at(s, start, j) <==> j == i
}

/// The signals that ask for a duty.
pub open spec fn is_candidate(m: Metrics, k: SignalKind) -> bool {
    m.signal_candidate_duty@.contains_key(k.name())
}

/// Whether a text holds no end of a line.
pub open spec fn breakless(p: Seq<Glyph>) -> bool {
    p.len() > 0 && forall|j: int| 0 <= j < p.len() ==> #[trigger] p[j] != report::glyph('\n')
}

proof fn lemma_left(a: Seq<Glyph>, b: Seq<Glyph>, p: Seq<Glyph>, i: int)
    requires
        metrics_laws::occurs_at(a, p, i),
    ensures
        metrics_laws::occurs_at(a + b, p, i),
{
    assert forall|j: int| 0 <= j < p.len() implies (a + b)[i + j] == #[trigger] p[j] by {
        assert(a[i + j] == p[j]);
    }
}

proof fn lemma_right(a: Seq<Glyph>, b: Seq<Glyph>, p: Seq<Glyph>, i: int)
    requires
        metrics_laws::occurs_at(b, p, i),
    ensures
        metrics_laws::occurs_at(a + b, p, a.len() + i),
{
    assert forall|j: int| 0 <= j < p.len() implies (a + b)[a.len() + i + j] == #[trigger] p[j] by {
        assert(b[i + j] == p[j]);
    }
}

/// What stands in two texts stands in one of them, if the first ends with its
/// line.
proof fn lemma_where(a: Seq<Glyph>, b: Seq<Glyph>, p: Seq<Glyph>, i: int)
    requires
        metrics_laws::ends_line(a),
        breakless(p),
        metrics_laws::occurs_at(a + b, p, i),
    ensures
        metrics_laws::occurs_at(a, p, i) || metrics_laws::occurs_at(b, p, i - a.len()),
{
    let s = a + b;
    let n = a.len() as int;
    if i + p.len() <= n {
        assert forall|j: int| 0 <= j < p.len() implies a[i + j] == #[trigger] p[j] by {
            assert(s[i + j] == p[j]);
        }
    } else if i >= n {
        assert forall|j: int| 0 <= j < p.len() implies b[i - n + j] == #[trigger] p[j] by {
            assert(s[i + j] == p[j]);
        }
    } else {
        assert(s[i + (n - 1 - i)] == p[n - 1 - i]);
        assert(s[n - 1] == a.last());
    }
}

proof fn lemma_neither(a: Seq<Glyph>, b: Seq<Glyph>, p: Seq<Glyph>)
    requires
        metrics_laws::ends_line(a),
        metrics_laws::ends_line(b),
        breakless(p),
        !metrics_laws::occurs(a, p),
        !metrics_laws::occurs(b, p),
    ensures
        metrics_laws::ends_line(a + b),
        !metrics_laws::occurs(a + b, p),
{
    if metrics_laws::occurs(a + b, p) {
        let i = choose|i: int| metrics_laws::occurs_at(a + b, p, i);
        lemma_where(a, b, p, i);
    }
    assert(b.len() == 0 ==> a + b =~= a);
}

proof fn lemma_once_left(a: Seq<Glyph>, b: Seq<Glyph>, p: Seq<Glyph>, line: Seq<Glyph>)
    requires
        metrics_laws::ends_line(a),
        metrics_laws::ends_line(b),
        breakless(p),
        once(a, p, line),
        !metrics_laws::occurs(b, p),
    ensures
        metrics_laws::ends_line(a + b),
        once(a + b, p, line),
{
    let s = a + b;
    let i = choose|i: int| #[trigger]
        line_at(a, line, i) && forall|j: int| #[trigger]
            metrics_laws::occurs_at(a, p, j) <==> j == i;
    assert(metrics_laws::occurs_at(a, p, i));
    lemma_left(a, b, line, i);
    lemma_left(a, b, p, i);
    assert(line_at(s, line, i));
    assert forall|j: int| #[trigger] metrics_laws::occurs_at(s, p, j) implies j == i by {
        lemma_where(a, b, p, j);
    }
    assert(b.len() == 0 ==> s =~= a);
}

proof fn lemma_once_right(a: Seq<Glyph>, b: Seq<Glyph>, p: Seq<Glyph>, line: Seq<Glyph>)
    requires
        metrics_laws::ends_line(a),
        metrics_laws::ends_line(b),
        breakless(p),
        !metrics_laws::occurs(a, p),
        once(b, p, line),
    ensures
        metrics_laws::ends_line(a + b),
        once(a + b, p, line),
{
    let s = a + b;
    let i = choose|i: int| #[trigger]
        line_at(b, line, i) && forall|j: int| #[trigger]
            metrics_laws::occurs_at(b, p, j) <==> j == i;
    assert(metrics_laws::occurs_at(b, p, i));
    let n = a.len() as int;
    lemma_right(a, b, line, i);
    lemma_right(a, b, p, i);
    assert(line_at(s, line, n + i)) by {
        if i > 0 {
            assert(s[n + i - 1] == b[i - 1]);
        } else if n > 0 {
            assert(s[n - 1] == a.last());
        }
    }
    assert forall|j: int| #[trigger] metrics_laws::occurs_at(s, p, j) implies j == n + i by {
        lemma_where(a, b, p, j);
        assert(!metrics_laws::occurs_at(a, p, j));
        assert(metrics_laws::occurs_at(b, p, j - n));
    }
    assert(b.len() == 0 ==> s =~= a);
}

/// Two texts, of which the second may hold the line.
proof fn lemma_then(a: Seq<Glyph>, b: Seq<Glyph>, k: SignalKind, line: Seq<Glyph>, served: bool)
    requires
        metrics_laws::ends_line(a),
        metrics_laws::ends_line(b),
        !metrics_laws::occurs(a, series(k)),
        served ==> once(b, series(k), line),
        !served ==> !metrics_laws::occurs(b, series(k)),
    ensures
        metrics_laws::ends_line(a + b),
        served ==> once(a + b, series(k), line),
        !served ==> !metrics_laws::occurs(a + b, series(k)),
{
    lemma_series(k);
    if served {
        lemma_once_right(a, b, series(k), line);
    } else {
        lemma_neither(a, b, series(k));
    }
}

/// Two texts, of which the first may hold the line.
proof fn lemma_before(a: Seq<Glyph>, b: Seq<Glyph>, k: SignalKind, line: Seq<Glyph>, served: bool)
    requires
        metrics_laws::ends_line(a),
        metrics_laws::ends_line(b),
        served ==> once(a, series(k), line),
        !served ==> !metrics_laws::occurs(a, series(k)),
        !metrics_laws::occurs(b, series(k)),
    ensures
        metrics_laws::ends_line(a + b),
        served ==> once(a + b, series(k), line),
        !served ==> !metrics_laws::occurs(a + b, series(k)),
{
    lemma_series(k);
    if served {
        lemma_once_left(a, b, series(k), line);
    } else {
        lemma_neither(a, b, series(k));
    }
}

proof fn lemma_series(k: SignalKind)
    ensures
        breakless(series(k)),
        series(k).len() == 34 + k.name().len(),
        series(k)[19] == report::glyph('n'),
        forall|j: int|
            0 <= j < metrics_laws::label(k).len() ==> series(k)[23 + j]
                == #[trigger] metrics_laws::label(k)[j],
        metrics_laws::label(k).len() == 9 + k.name().len(),
{
    reveal_strlit("unifand_control_signal{signal=\"");
    reveal_strlit("\"} ");
    reveal_strlit("signal=\"");
    reveal_strlit("\"");
    metrics_laws::lemma_name(k);
    let n = k.name().len() as int;
    let head = "unifand_control_signal{signal=\""@;
    assert forall|j: int| 0 <= j < series(k).len() implies #[trigger] series(k)[j] != report::glyph(
        '\n',
    ) by {
        if j < 31 {
            assert(series(k)[j] == report::glyph(head[j]));
        } else if j < 31 + n {
            assert(series(k)[j] == report::glyph(k.name()[j - 31]));
        }
    }
    assert forall|j: int| 0 <= j < metrics_laws::label(k).len() implies series(k)[23 + j]
        == #[trigger] metrics_laws::label(k)[j] by {
        if 8 <= j < 8 + n {
            assert(series(k)[23 + j] == report::glyph(k.name()[j - 8]));
        }
    }
}

/// Where the start of the line stands, the label stands a little later.
proof fn lemma_label_within(s: Seq<Glyph>, k: SignalKind, i: int)
    requires
        metrics_laws::occurs_at(s, series(k), i),
    ensures
        metrics_laws::occurs_at(s, metrics_laws::label(k), i + 23),
{
    lemma_series(k);
    let p = metrics_laws::label(k);
    assert forall|j: int| 0 <= j < p.len() implies s[i + 23 + j] == #[trigger] p[j] by {
        assert(s[i + (23 + j)] == series(k)[23 + j]);
    }
}

proof fn lemma_no_label(s: Seq<Glyph>, k: SignalKind)
    requires
        !metrics_laws::occurs(s, metrics_laws::label(k)),
    ensures
        !metrics_laws::occurs(s, series(k)),
{
    if metrics_laws::occurs(s, series(k)) {
        let i = choose|i: int| metrics_laws::occurs_at(s, series(k), i);
        lemma_label_within(s, k, i);
    }
}

proof fn lemma_harmless(s: Seq<Glyph>, k: SignalKind)
    requires
        metrics_laws::harmless(s),
    ensures
        !metrics_laws::occurs(s, series(k)),
{
    metrics_laws::lemma_harmless(s, k);
    lemma_no_label(s, k);
}

/// A line of another family, whose label stands after `head`.
proof fn lemma_foreign(s: Seq<Glyph>, head: Seq<char>, k: SignalKind)
    requires
        head.len() >= 12,
        head[head.len() - 12] != 'n',
        head.len() <= s.len(),
        s[head.len() - 12] == report::glyph(head[head.len() - 12]),
        forall|i: int| #[trigger]
            metrics_laws::occurs_at(s, metrics_laws::label(k), i) ==> i == head.len() - 8,
    ensures
        !metrics_laws::occurs(s, series(k)),
{
    if metrics_laws::occurs(s, series(k)) {
        let i = choose|i: int| metrics_laws::occurs_at(s, series(k), i);
        lemma_series(k);
        lemma_label_within(s, k, i);
        assert(s[i + 19] == series(k)[19]);
    }
}

proof fn lemma_foreign_lines<T>(entries: Seq<T>, f: spec_fn(T) -> Seq<Glyph>, k: SignalKind)
    requires
        forall|i: int|
            0 <= i < entries.len() ==> metrics_laws::ends_line(f(#[trigger] entries[i]))
                && !metrics_laws::occurs(f(entries[i]), series(k)),
    ensures
        metrics_laws::ends_line(metrics::lines(entries, f)),
        !metrics_laws::occurs(metrics::lines(entries, f), series(k)),
    decreases entries.len(),
{
    lemma_series(k);
    if entries.len() == 0 {
        lemma_harmless(Seq::empty(), k);
    } else {
        let front = entries.drop_last();
        assert forall|i: int| 0 <= i < front.len() implies metrics_laws::ends_line(
            f(#[trigger] front[i]),
        ) && !metrics_laws::occurs(f(front[i]), series(k)) by {
            assert(front[i] == entries[i]);
        }
        lemma_foreign_lines(front, f, k);
        let last = entries[entries.len() - 1];
        assert(last == entries.last());
        lemma_neither(metrics::lines(front, f), f(last), series(k));
    }
}

/// A heading and the lines under it, of another family.
proof fn lemma_foreign_family(help: Seq<char>, lines: Seq<Glyph>, k: SignalKind)
    requires
        help.len() > 0,
        help.last() == '\n',
        metrics_laws::harmless_text(help),
        metrics_laws::ends_line(lines),
        !metrics_laws::occurs(lines, series(k)),
    ensures
        metrics_laws::ends_line(report::plain(help)),
        !metrics_laws::occurs(report::plain(help), series(k)),
        metrics_laws::ends_line(report::plain(help) + lines),
        !metrics_laws::occurs(report::plain(help) + lines, series(k)),
{
    lemma_series(k);
    metrics_laws::lemma_text(help);
    metrics_laws::lemma_family(help, lines);
    lemma_harmless(report::plain(help), k);
    lemma_neither(report::plain(help), lines, series(k));
}

proof fn lemma_values_part(m: Metrics, k: SignalKind)
    requires
        m.wf(),
    ensures
        !metrics_laws::occurs(metrics::values_part(m), series(k)),
{
    reveal_strlit("# HELP unifand_signal_value Conditioned (smoothed) value of each available input signal.\n# TYPE unifand_signal_value gauge\n");
    let help = "# HELP unifand_signal_value Conditioned (smoothed) value of each available input signal.\n# TYPE unifand_signal_value gauge\n"@;
    assert(metrics_laws::harmless_text(help));
    reveal_strlit("unifand_signal_value{signal=\"");
    let head = "unifand_signal_value{signal=\""@;
    let entries = m.signal_values.entries();
    let f = |e| metrics::value_line(e);
    assert forall|i: int| 0 <= i < entries.len() implies metrics_laws::ends_line(
        f(#[trigger] entries[i]),
    ) && !metrics_laws::occurs(f(entries[i]), series(k)) by {
        let e: (Seq<char>, (Binary64, SignalKind)) = entries[i];
        m.signal_values.lemma_entry(i);
        let key = metrics_laws::signal_of(e.0);
        assert(key.name() == e.0);
        metrics_laws::lemma_value_line(e, key, k);
        lemma_foreign(metrics::value_line(e), head, k);
    }
    lemma_foreign_lines(entries, f, k);
    lemma_foreign_family(help, metrics::lines(entries, f), k);
    lemma_harmless(Seq::empty(), k);
}

proof fn lemma_errors_by_signal_part(m: Metrics, k: SignalKind)
    requires
        m.wf(),
    ensures
        !metrics_laws::occurs(metrics::errors_by_signal_part(m), series(k)),
{
    reveal_strlit("# HELP unifand_signal_errors_total Real read failures per signal; NotSupported is not counted (it means the signal is absent).\n# TYPE unifand_signal_errors_total counter\n");
    let help = "# HELP unifand_signal_errors_total Real read failures per signal; NotSupported is not counted (it means the signal is absent).\n# TYPE unifand_signal_errors_total counter\n"@;
    assert(metrics_laws::harmless_text(help));
    reveal_strlit("unifand_signal_errors_total{signal=\"");
    let head = "unifand_signal_errors_total{signal=\""@;
    assert(metrics_laws::opens_label(head));
    let entries = m.signal_errors.entries();
    let f = |e| metrics::error_line(e);
    assert forall|i: int| 0 <= i < entries.len() implies metrics_laws::ends_line(
        f(#[trigger] entries[i]),
    ) && !metrics_laws::occurs(f(entries[i]), series(k)) by {
        let e: (Seq<char>, u64) = entries[i];
        m.signal_errors.lemma_entry(i);
        let key = metrics_laws::signal_of(e.0);
        assert(key.name() == e.0);
        metrics_laws::lemma_count(e.1 as nat);
        metrics_laws::lemma_signal_line(head, key, report::count(e.1 as nat), k);
        lemma_foreign(metrics::error_line(e), head, k);
    }
    lemma_foreign_lines(entries, f, k);
    lemma_foreign_family(help, metrics::lines(entries, f), k);
    lemma_harmless(Seq::empty(), k);
}

/// The line of one signal: it holds the start of the line of `k` at its own
/// start, if `k` is the signal, and nowhere else.
proof fn lemma_control_line(e: (Seq<char>, u8), winner: Option<SignalKind>, k: SignalKind)
    requires
        metrics::is_signal(e.0),
    ensures
        metrics_laws::ends_line(metrics::control_line(e, winner)),
        e.0 == k.name() ==> once(
            metrics::control_line(e, winner),
            series(k),
            series_line(k, winner == Some(k)),
        ),
        e.0 != k.name() ==> !metrics_laws::occurs(metrics::control_line(e, winner), series(k)),
{
    reveal_strlit("unifand_control_signal{signal=\"");
    let head = "unifand_control_signal{signal=\""@;
    assert(metrics_laws::opens_label(head));
    let key = metrics_laws::signal_of(e.0);
    assert(key.name() == e.0);
    metrics_laws::lemma_names_differ(k, key);
    metrics_laws::lemma_count(0);
    metrics_laws::lemma_count(1);
    let followed = winner matches Some(w) && w.name() == e.0;
    let s = metrics::control_line(e, winner);
    let p = series(k);
    metrics_laws::lemma_signal_line(head, key, metrics::flag(followed), k);
    lemma_series(k);
    assert forall|j: int| #[trigger] metrics_laws::occurs_at(s, p, j) implies j == 0 && e.0
        == k.name() by {
        lemma_label_within(s, k, j);
    }
    if e.0 == k.name() {
        if let Some(w) = winner {
            metrics_laws::lemma_names_differ(k, w);
        }
        let line = series_line(k, winner == Some(k));
        assert(s =~= line);
        assert(metrics_laws::occurs_at(s, line, 0));
        assert(line_at(s, line, 0));
        assert forall|j: int| 0 <= j < p.len() implies s[0 + j] == #[trigger] p[j] by {
        }
        assert(metrics_laws::occurs_at(s, p, 0));
    }
}

/// The lines of several signals: one for each of them.
proof fn lemma_control_lines(
    entries: Seq<(Seq<char>, u8)>,
    winner: Option<SignalKind>,
    k: SignalKind,
)
    requires
        forall|i: int| 0 <= i < entries.len() ==> metrics::is_signal((#[trigger] entries[i]).0),
        forall|i: int, j: int|
            0 <= i < j < entries.len() ==> (#[trigger] entries[i]).0 != (#[trigger] entries[j]).0,
    ensures
        ({
            let s = metrics::lines(entries, |e| metrics::control_line(e, winner));
            let served = exists|i: int|
                0 <= i < entries.len() && (#[trigger] entries[i]).0 == k.name();
            &&& metrics_laws::ends_line(s)
            &&& served ==> once(s, series(k), series_line(k, winner == Some(k)))
            &&& !served ==> !metrics_laws::occurs(s, series(k))
        }),
    decreases entries.len(),
{
    let g = |e| metrics::control_line(e, winner);
    let line = series_line(k, winner == Some(k));
    lemma_series(k);
    if entries.len() == 0 {
        lemma_harmless(Seq::empty(), k);
    } else {
        let front = entries.drop_last();
        let n = front.len() as int;
        let last = entries[n];
        assert(last == entries.last());
        assert forall|i: int| 0 <= i < n implies front[i] == #[trigger] entries[i] by {
        }
        lemma_control_lines(front, winner, k);
        lemma_control_line(last, winner, k);
        let a = metrics::lines(front, g);
        let b = g(last);
        if last.0 == k.name() {
            assert forall|i: int| 0 <= i < n implies (#[trigger] front[i]).0 != k.name() by {
                assert(entries[i].0 != entries[n].0);
            }
            lemma_once_right(a, b, series(k), line);
        } else if exists|i: int| 0 <= i < n && (#[trigger] front[i]).0 == k.name() {
            let i = choose|i: int| 0 <= i < n && (#[trigger] front[i]).0 == k.name();
            assert(entries[i].0 == k.name());
            lemma_once_left(a, b, series(k), line);
        } else {
            assert forall|i: int| 0 <= i < entries.len() implies (#[trigger] entries[i]).0
                != k.name() by {
                if i < n {
                    assert(front[i].0 != k.name());
                }
            }
            lemma_neither(a, b, series(k));
        }
    }
}

proof fn lemma_candidates_part(m: Metrics, k: SignalKind)
    requires
        m.wf(),
    ensures
        is_candidate(m, k) ==> once(
            metrics::candidates_part(m),
            series(k),
            series_line(k, m.control_signal == Some(k)),
        ),
        !is_candidate(m, k) ==> !metrics_laws::occurs(metrics::candidates_part(m), series(k)),
{
    reveal_strlit("# HELP unifand_signal_candidate_duty_percent Duty each available signal's curve commands this tick.\n# TYPE unifand_signal_candidate_duty_percent gauge\n");
    let help = "# HELP unifand_signal_candidate_duty_percent Duty each available signal's curve commands this tick.\n# TYPE unifand_signal_candidate_duty_percent gauge\n"@;
    assert(metrics_laws::harmless_text(help));
    reveal_strlit("# HELP unifand_control_signal One-hot: 1 for the signal driving the applied duty, 0 for other available signals.\n# TYPE unifand_control_signal gauge\n");
    let control_help = "# HELP unifand_control_signal One-hot: 1 for the signal driving the applied duty, 0 for other available signals.\n# TYPE unifand_control_signal gauge\n"@;
    assert(metrics_laws::harmless_text(control_help));
    reveal_strlit("unifand_signal_candidate_duty_percent{signal=\"");
    let head = "unifand_signal_candidate_duty_percent{signal=\""@;
    assert(metrics_laws::opens_label(head));
    let entries = m.signal_candidate_duty.entries();
    let line = series_line(k, m.control_signal == Some(k));
    let f = |e| metrics::candidate_line(e);
    assert forall|i: int| 0 <= i < entries.len() implies metrics_laws::ends_line(
        f(#[trigger] entries[i]),
    ) && !metrics_laws::occurs(f(entries[i]), series(k)) by {
        let e: (Seq<char>, u8) = entries[i];
        m.signal_candidate_duty.lemma_entry(i);
        let key = metrics_laws::signal_of(e.0);
        assert(key.name() == e.0);
        metrics_laws::lemma_count(e.1 as nat);
        metrics_laws::lemma_signal_line(head, key, report::count(e.1 as nat), k);
        lemma_foreign(metrics::candidate_line(e), head, k);
    }
    lemma_foreign_lines(entries, f, k);
    lemma_foreign_family(help, metrics::lines(entries, f), k);
    assert forall|i: int| 0 <= i < entries.len() implies metrics::is_signal(
        (#[trigger] entries[i]).0,
    ) by {
        m.signal_candidate_duty.lemma_entry(i);
    }
    assert forall|i: int, j: int| 0 <= i < j < entries.len() implies (#[trigger] entries[i]).0 != (
    #[trigger] entries[j]).0 by {
        if entries[i].0 == entries[j].0 {
            m.signal_candidate_duty.lemma_distinct(i, j);
        }
    }
    lemma_control_lines(entries, m.control_signal, k);
    let g = |e| metrics::control_line(e, m.control_signal);
    let served = exists|i: int| 0 <= i < entries.len() && (#[trigger] entries[i]).0 == k.name();
    assert(served == is_candidate(m, k)) by {
        if is_candidate(m, k) {
            let i = choose|i: int| m.signal_candidate_duty.at(k.name(), i);
            assert(entries[i].0 == k.name());
        }
        if served {
            let i = choose|i: int| 0 <= i < entries.len() && (#[trigger] entries[i]).0 == k.name();
            m.signal_candidate_duty.lemma_entry(i);
        }
    }
    let first = report::plain(help) + metrics::lines(entries, f);
    lemma_harmless(Seq::empty(), k);
    lemma_foreign_family(control_help, Seq::empty(), k);
    lemma_then(first, report::plain(control_help), k, line, false);
    lemma_then(
        first + report::plain(control_help),
        metrics::lines(entries, g),
        k,
        line,
        served,
    );
}

/// Of each signal that asks for a duty, exactly one line says whether it is
/// followed: a one if it is the signal that was set last, a zero otherwise. Of
/// any other signal there is no such line, even if it was set. Left out are
/// metrics in which the source of a temperature spells the start of the line.
pub proof fn law_control_signal_is_one_hot(m: Metrics, k: SignalKind)
    requires
        m.wf(),
        !metrics_laws::occurs(metrics::temps_part(m), series(k)),
    ensures
        is_candidate(m, k) ==> once(
            metrics::rendered(m),
            series(k),
            series_line(k, m.control_signal == Some(k)),
        ),
        !is_candidate(m, k) ==> !metrics_laws::occurs(metrics::rendered(m), series(k)),
{
    let line = series_line(k, m.control_signal == Some(k));
    let served = is_candidate(m, k);
    let s1 = metrics::temps_part(m) + metrics::duty_part(m);
    let s2 = s1 + metrics::rpm_part(m);
    let s3 = s2 + metrics::flags_part(m);
    let s4 = s3 + metrics::errors_part(m);
    let s5 = s4 + metrics::values_part(m);
    let s6 = s5 + metrics::candidates_part(m);
    let s7 = s6 + metrics::limit_part(m);
    let s8 = s7 + metrics::throttle_part(m);
    let s9 = s8 + metrics::floor_part(m);
    let s10 = s9 + metrics::errors_by_signal_part(m);
    metrics_laws::lemma_temps_part(m, k);
    metrics_laws::lemma_duty_part(m);
    metrics_laws::lemma_rpm_part(m);
    metrics_laws::lemma_flags_part(m);
    metrics_laws::lemma_errors_part(m);
    metrics_laws::lemma_values_part(m, k);
    metrics_laws::lemma_candidates_part(m, k);
    metrics_laws::lemma_limit_part(m);
    metrics_laws::lemma_throttle_part(m);
    metrics_laws::lemma_floor_part(m);
    metrics_laws::lemma_errors_by_signal_part(m, k);
    metrics_laws::lemma_tail_part(m);
    lemma_values_part(m, k);
    lemma_candidates_part(m, k);
    lemma_errors_by_signal_part(m, k);
    lemma_harmless(metrics::duty_part(m), k);
    lemma_harmless(metrics::rpm_part(m), k);
    lemma_harmless(metrics::flags_part(m), k);
    lemma_harmless(metrics::errors_part(m), k);
    lemma_harmless(metrics::limit_part(m), k);
    lemma_harmless(metrics::throttle_part(m), k);
    lemma_harmless(metrics::floor_part(m), k);
    lemma_harmless(metrics::tail_part(m), k);
    lemma_then(metrics::temps_part(m), metrics::duty_part(m), k, line, false);
    lemma_then(s1, metrics::rpm_part(m), k, line, false);
    lemma_then(s2, metrics::flags_part(m), k, line, false);
    lemma_then(s3, metrics::errors_part(m), k, line, false);
    lemma_then(s4, metrics::values_part(m), k, line, false);
    lemma_then(s5, metrics::candidates_part(m), k, line, served);
    lemma_before(s6, metrics::limit_part(m), k, line, served);
    lemma_before(s7, metrics::throttle_part(m), k, line, served);
    lemma_before(s8, metrics::floor_part(m), k, line, served);
    lemma_before(s9, metrics::errors_by_signal_part(m), k, line, served);
    lemma_before(s10, metrics::tail_part(m), k, line, served);
}

/// Sources like those of the daemon spell no start of such a line.
pub proof fn law_plain_sources_spell_no_series(m: Metrics, k: SignalKind)
    requires
        m.wf(),
        forall|source: Seq<char>| #[trigger]
            m.temps@.contains_key(source) ==> metrics_laws::plain_source(source),
    ensures
        !metrics_laws::occurs(metrics::temps_part(m), series(k)),
{
    metrics_laws::law_plain_sources_spell_no_label(m, k);
    lemma_no_label(metrics::temps_part(m), k);
}

/// Whether a change sets what a signal asks for.
pub open spec fn asks(u: Update, k: SignalKind) -> bool {
    u matches Update::Candidate { signal, .. } && signal == k
}

/// The signal that the first `n` changes set last as the one that is followed.
pub open spec fn last_winner(updates: Seq<Update>, n: int) -> Option<SignalKind>
    decreases n,
{
    if n <= 0 {
        None
    } else {
        match updates[n - 1] {
            Update::Control { winner } => Some(winner),
            _ => last_winner(updates, n - 1),
        }
    }
}

proof fn lemma_history(states: Seq<Metrics>, updates: Seq<Update>, k: SignalKind, n: int)
    requires
        metrics_laws::is_history(states, updates),
        0 <= n < states.len(),
    ensures
        is_candidate(states[n], k) <==> exists|i: int|
            0 <= i < n && asks(#[trigger] updates[i], k),
        states[n].control_signal == last_winner(updates, n),
    decreases n,
{
    if n > 0 {
        lemma_history(states, updates, k, n - 1);
        let u = updates[n - 1];
        assert(metrics_laws::updated(states[n - 1], states[n], u));
        if let Update::Candidate { signal, .. } = u {
            metrics_laws::lemma_names_differ(k, signal);
        }
        if exists|i: int| 0 <= i < n - 1 && asks(#[trigger] updates[i], k) {
            let i = choose|i: int| 0 <= i < n - 1 && asks(#[trigger] updates[i], k);
            assert(asks(updates[i], k));
        }
    } else {
        assert(!states[0].signal_candidate_duty@.dom().contains(k.name()));
    }
}

/// Whatever was done with the metrics: exactly the signals whose candidate duty
/// was set have a line that says whether they are followed, each exactly one,
/// with a one for the signal that was set last and a zero for the others.
pub proof fn law_control_signal_follows_the_calls(
    states: Seq<Metrics>,
    updates: Seq<Update>,
    k: SignalKind,
)
    requires
        metrics_laws::is_history(states, updates),
        states.last().wf(),
        !metrics_laws::occurs(metrics::temps_part(states.last()), series(k)),
    ensures
        ({
            let page = metrics::rendered(states.last());
            let asked = exists|i: int| 0 <= i < updates.len() && asks(#[trigger] updates[i], k);
            let followed = last_winner(updates, updates.len() as int) == Some(k);
            &&& asked ==> once(page, series(k), series_line(k, followed))
            &&& !asked ==> !metrics_laws::occurs(page, series(k))
        }),
{
    lemma_history(states, updates, k, states.len() - 1);
    law_control_signal_is_one_hot(states.last(), k);
}

} // verus!
