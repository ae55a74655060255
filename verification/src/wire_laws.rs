//! What stands on the wire, byte by byte.

use crate::hid;
use crate::rgb;
use crate::rgb::ColorStop;
use crate::text;
use vstd::prelude::*;

verus! {

/// The speed byte counts in steps of 20 revolutions per minute: 250 for no duty,
/// 17.5 more for every percent, and no more above 100.
pub proof fn law_speed_in_steps(duty: u8)
    ensures
        duty <= 100 ==> 20 * hid::wire_speed(duty) * 2 <= 500 + 35 * duty < 20 * (hid::wire_speed(
            duty,
        ) + 1) * 2,
        duty > 100 ==> hid::wire_speed(duty) == 100,
{
}

/// A duty write has four bytes: the report, the channel from 32 on, a zero and
/// the speed. It names the channel and the duty, and needs no pause.
pub proof fn law_duty_write(channel: u8, duty: u8)
    requires
        1 <= channel <= 4,
    ensures
        ({
            let w = hid::duty_plan(channel, duty);
            &&& w.bytes.len() == 4
            &&& w.bytes[0] == 224
            &&& w.bytes[1] == 31 + channel
            &&& w.bytes[2] == 0
            &&& duty <= 100 ==> 40 * w.bytes[3] <= 500 + 35 * duty < 40 * (w.bytes[3] + 1)
            &&& duty > 100 ==> w.bytes[3] == 100
            &&& w.pause_ms == 0
            &&& w.what == "set duty ch"@ + text::decimal_text(channel as nat) + " "@
                + text::decimal_text(duty as nat) + "%"@
        }),
{
}

/// Two channels never get the same write, whatever the duties.
pub proof fn law_duty_writes_differ(c1: u8, d1: u8, c2: u8, d2: u8)
    requires
        c1 != c2,
        c1 <= 224,
        c2 <= 224,
    ensures
        hid::duty_plan(c1, d1).bytes != hid::duty_plan(c2, d2).bytes,
{
    assert(hid::duty_plan(c1, d1).bytes[1] != hid::duty_plan(c2, d2).bytes[1]);
}

/// The speed of a channel stands in two bytes of the report, the high one first:
/// those at twice the number of the channel. There are four channels.
pub proof fn law_rpm_bytes(report: Seq<u8>, channel: u8)
    ensures
        hid::rpm_in(report, channel) is Some <==> 1 <= channel <= 4 && report.len() >= 2 * channel
            + 2,
        hid::rpm_in(report, channel) matches Some(rpm) ==> rpm / 256 == report[2 * channel as int]
            && rpm % 256 == report[2 * channel + 1],
{
}

/// The set-up is one write that ends the synchronisation with the mainboard, then
/// one for each channel in the order given, each with its own bit in the high
/// half of the last byte, and 200 milliseconds after each.
pub proof fn law_set_up(channels: Seq<u8>, i: int)
    requires
        0 <= i < channels.len(),
        1 <= channels[i] <= 4,
    ensures
        ({
            let plan = hid::init_plan(channels);
            let w = plan[i + 1];
            &&& plan.len() == channels.len() + 1
            &&& plan[0].bytes.len() == 7
            &&& plan[0].bytes[0] == 224 && plan[0].bytes[1] == 16 && plan[0].bytes[2] == 97
            &&& forall|k: int| 3 <= k < 7 ==> plan[0].bytes[k] == 0
            &&& plan[0].pause_ms == 200
            &&& plan[0].what == "rgb sync off"@
            &&& w.bytes.len() == 4
            &&& w.bytes[0] == 224 && w.bytes[1] == 16 && w.bytes[2] == 98
            &&& w.bytes[3] == 8 * vstd::arithmetic::power2::pow2(channels[i] as nat)
            &&& w.pause_ms == 200
            &&& w.what == "manual mode ch"@ + text::decimal_text(channels[i] as nat)
        }),
{
    vstd::arithmetic::power2::lemma2_to64();
}

/// The three packets of an animation: it opens with the channel, counted from
/// zero, and the fans in the two halves of one byte, goes on with the colors, and
/// is committed with mode, speed and brightness. All are 353 bytes long, and 10
/// milliseconds pass after each.
pub proof fn law_effect_packets(
    channel: u8,
    num_fans: u8,
    colors: Seq<(u8, u8, u8)>,
    mode: u8,
    speed: u8,
    brightness: u8,
)
    requires
        1 <= channel <= 16,
        num_fans < 16,
    ensures
        ({
            let plan = hid::effect_plan(channel, num_fans, colors, mode, speed, brightness);
            let open = plan[0].bytes;
            let commit = plan[2].bytes;
            &&& plan.len() == 3
            &&& open.len() == 353
            &&& open[0] == 0xE0 && open[1] == 0x10 && open[2] == 0x60
            &&& open[3] / 16 == channel - 1
            &&& open[3] % 16 == num_fans
            &&& forall|k: int| 4 <= k < 353 ==> open[k] == 0
            &&& plan[1].bytes.len() == 353
            &&& plan[1].bytes[0] == 0xE0
            &&& plan[1].bytes[1] == 0x2F + channel
            &&& commit.len() == 353
            &&& commit[0] == 0xE0
            &&& commit[1] == 0x0F + channel
            &&& commit[2] == mode
            &&& commit[3] == speed
            &&& commit[4] == 0
            &&& commit[5] == brightness
            &&& forall|k: int| 6 <= k < 353 ==> commit[k] == 0
            &&& forall|k: int| 0 <= k < 3 ==> (#[trigger] plan[k]).pause_ms == 10
            &&& plan[0].what == "rgb start ch"@ + text::decimal_text(channel as nat)
            &&& plan[1].what == "rgb multi_color ch"@ + text::decimal_text(channel as nat)
            &&& plan[2].what == "rgb commit ch"@ + text::decimal_text(channel as nat)
        }),
{
}

/// A change of speed alone is the commit of the same animation, without a pause.
pub proof fn law_speed_change_is_the_commit(
    channel: u8,
    num_fans: u8,
    colors: Seq<(u8, u8, u8)>,
    mode: u8,
    speed: u8,
    brightness: u8,
)
    ensures
        hid::commit_write(channel, mode, speed, brightness, 0).bytes == hid::effect_plan(
            channel,
            num_fans,
            colors,
            mode,
            speed,
            brightness,
        )[2].bytes,
        hid::commit_write(channel, mode, speed, brightness, 0).pause_ms == 0,
{
}

/// A steady color is the animation with that one color, in mode 1 and at the
/// slowest speed.
pub proof fn law_steady_color(channel: u8, num_fans: u8, color: (u8, u8, u8), brightness: u8)
    requires
        1 <= channel <= 16,
        num_fans < 16,
    ensures
        ({
            let plan = hid::rgb_plan(channel, num_fans, color, brightness);
            &&& plan == hid::effect_plan(channel, num_fans, seq![color], 1, 2, brightness)
            &&& plan[2].bytes[2] == 1
            &&& plan[2].bytes[3] == 2
            &&& plan[2].bytes[5] == brightness
        }),
{
}

/// Of the 96 LEDs of a channel, each shows the color whose turn it is, in red,
/// blue and green; behind them, and without colors, everything is zero.
pub proof fn law_leds_take_turns(channel: u8, colors: Seq<(u8, u8, u8)>, led: int, k: int)
    requires
        0 <= led < 96,
        290 <= k < 353,
    ensures
        ({
            let bytes = rgb::color_bytes(channel, colors);
            let c = colors[led % colors.len() as int];
            &&& bytes.len() == 353
            &&& colors.len() > 0 ==> bytes[2 + 3 * led] == c.0
            &&& colors.len() > 0 ==> bytes[2 + 3 * led + 1] == c.2
            &&& colors.len() > 0 ==> bytes[2 + 3 * led + 2] == c.1
            &&& colors.len() == 0 ==> bytes[2 + 3 * led] == 0 && bytes[2 + 3 * led + 1] == 0
                && bytes[2 + 3 * led + 2] == 0
            &&& bytes[k] == 0
        }),
{
    assert((3 * led) / 3 == led);
    assert((3 * led + 1) / 3 == led);
    assert((3 * led + 2) / 3 == led);
}

/// A color keeps the order of its parts.
pub proof fn law_colors_keep_their_parts(c: [u8; 3])
    ensures
        rgb::triple(c).0 == c@[0],
        rgb::triple(c).1 == c@[1],
        rgb::triple(c).2 == c@[2],
{
}

/// Outside the stops the color is that of the nearest end.
pub proof fn law_gradient_ends(stops: Seq<ColorStop>, duty: u8)
    requires
        stops.len() > 0,
    ensures
        ({
            let c = rgb::gradient(stops, duty);
            let first = stops[0];
            let last = stops[stops.len() - 1];
            &&& duty <= first.duty ==> c.0 == first.color@[0] && c.1 == first.color@[1] && c.2
                == first.color@[2]
            &&& duty > first.duty && duty >= last.duty ==> c.0 == last.color@[0] && c.1
                == last.color@[1] && c.2 == last.color@[2]
        }),
{
    assert(stops.last() == stops[stops.len() - 1]);
}

/// The bins divide the percents evenly: bin `b` is left when `duty` has gained
/// another hundredth of the number of steps between the bins. No duty is in the
/// first bin, full duty alone or more in the last.
pub proof fn law_bins_are_even(duty: u8, buckets: u8)
    requires
        buckets >= 1,
    ensures
        duty <= 100 ==> 100 * rgb::bucket_of(duty, buckets) <= duty * (buckets - 1) < 100 * (
        rgb::bucket_of(duty, buckets) + 1),
        duty >= 100 ==> rgb::bucket_of(duty, buckets) == buckets - 1,
        rgb::bucket_of(0, buckets) == 0,
{
    assert(0 * (buckets - 1) == 0);
    if duty >= 100 {
        assert(100 * (buckets - 1) / 100 == buckets - 1);
    }
    if duty == 100 {
        assert(duty * (buckets - 1) == 100 * (buckets - 1));
    }
}

/// The representative of a bin is the least duty that reaches it, but no more
/// than 100.
pub proof fn law_bin_edges(b: u8, buckets: u8)
    requires
        buckets >= 2,
        b < buckets,
    ensures
        ({
            let e = rgb::bucket_edge(b, buckets);
            &&& 0 <= e <= 100
            &&& e * (buckets - 1) < 100 * b + (buckets - 1)
            &&& e < 100 ==> e * (buckets - 1) >= 100 * b
        }),
{
    let m = buckets - 1;
    let n = 100 * b + m - 1;
    vstd::arithmetic::div_mod::lemma_fundamental_div_mod(n, m);
    vstd::arithmetic::div_mod::lemma_mod_bound(n, m);
    vstd::arithmetic::div_mod::lemma_div_pos_is_pos(n, m);
    let q = n / m;
    assert(m * q == q * m) by (nonlinear_arith);
    let e = rgb::bucket_edge(b, buckets);
    assert(e * m <= q * m) by (nonlinear_arith)
        requires
            e <= q,
            m >= 1,
    ;
}

/// What names the hub: its line starts with `HID_ID=`, and in the line stands
/// `0CF2:0000A105`.
pub proof fn law_name_of_the_hub()
    ensures
        hid::id_key() == seq!['H', 'I', 'D', '_', 'I', 'D', '='],
        hid::hub_id() == seq!['0', 'C', 'F', '2', ':', '0', '0', '0', '0', 'A', '1', '0', '5'],
{
    assert(hid::hub_id() =~= seq![
        '0',
        'C',
        'F',
        '2',
        ':',
        '0',
        '0',
        '0',
        '0',
        'A',
        '1',
        '0',
        '5',
    ]);
}

/// A description of the hub stays one when more lines follow it, and a line that
/// names the hub makes a description of any text before it.
pub proof fn law_other_lines_do_not_matter(before: Seq<char>, s: Seq<char>, after: Seq<char>)
    requires
        hid::describes_hub(s),
    ensures
        hid::describes_hub(s + after),
        before.len() == 0 || before.last() == '\n' ==> hid::describes_hub(before + s),
{
    let (i, j) = choose|i: int, j: int| hid::names_hub(s, i, j);
    let key = hid::id_key();
    let id = hid::hub_id();
    law_name_of_the_hub();
    let more = s + after;
    assert(more.subrange(i, i + key.len()) =~= s.subrange(i, i + key.len()));
    assert(more.subrange(j, j + id.len()) =~= s.subrange(j, j + id.len()));
    assert(hid::names_hub(more, i, j));
    if before.len() == 0 || before.last() == '\n' {
        let n = before.len() as int;
        let moved = before + s;
        assert(moved.subrange(n + i, n + i + key.len()) =~= s.subrange(i, i + key.len()));
        assert(moved.subrange(n + j, n + j + id.len()) =~= s.subrange(j, j + id.len()));
        assert forall|k: int| n + i <= k < n + j + id.len() implies moved[k] != '\n' by {
            assert(moved[k] == s[k - n]);
        }
        assert(hid::names_hub(moved, n + i, n + j));
    }
}

/// A text of one line describes the hub exactly if it starts with the key and
/// holds the name.
pub proof fn law_one_line_names_the_hub(s: Seq<char>)
    requires
        forall|k: int| 0 <= k < s.len() ==> #[trigger] s[k] != '\n',
    ensures
        hid::describes_hub(s) <==> s.len() >= 7 && s.subrange(0, 7) == seq![
            'H',
            'I',
            'D',
            '_',
            'I',
            'D',
            '=',
        ] && exists|j: int|
            0 <= j && j + 13 <= s.len() && #[trigger] s.subrange(j, j + 13) == seq![
                '0',
                'C',
                'F',
                '2',
                ':',
                '0',
                '0',
                '0',
                '0',
                'A',
                '1',
                '0',
                '5',
            ],
{
    law_name_of_the_hub();
    if hid::describes_hub(s) {
        let (i, j) = choose|i: int, j: int| hid::names_hub(s, i, j);
        assert(i == 0);
        assert(s.subrange(j, j + 13) == hid::hub_id());
    }
    if s.len() >= 7 && s.subrange(0, 7) == hid::id_key() && exists|j: int|
        0 <= j && j + 13 <= s.len() && #[trigger] s.subrange(j, j + 13) == hid::hub_id() {
        let j = choose|j: int|
            0 <= j && j + 13 <= s.len() && #[trigger] s.subrange(j, j + 13) == hid::hub_id();
        assert(hid::names_hub(s, 0, j));
    }
}

/// Of several lines, one has to name the hub by itself.
pub proof fn law_lines_are_looked_at_one_by_one(a: Seq<char>, b: Seq<char>)
    ensures
        hid::describes_hub(a.push('\n') + b) <==> hid::describes_hub(a) || hid::describes_hub(b),
{
    let s = a.push('\n') + b;
    let n = a.len() as int;
    let key = hid::id_key();
    let id = hid::hub_id();
    law_name_of_the_hub();
    if hid::describes_hub(a) {
        law_other_lines_do_not_matter(Seq::empty(), a, seq!['\n'] + b);
        assert(a + (seq!['\n'] + b) =~= s);
    }
    if hid::describes_hub(b) {
        law_other_lines_do_not_matter(a.push('\n'), b, Seq::empty());
    }
    if hid::describes_hub(s) {
        let (i, j) = choose|i: int, j: int| hid::names_hub(s, i, j);
        assert(s[n] == '\n');
        assert(!(i <= n < j + id.len()));
        if i > n {
            assert(b.subrange(i - n - 1, i - n - 1 + key.len()) =~= s.subrange(i, i + key.len()));
            assert(b.subrange(j - n - 1, j - n - 1 + id.len()) =~= s.subrange(j, j + id.len()));
            assert(hid::line_starts(b, i - n - 1)) by {
                if i - n - 1 > 0 {
                    assert(b[i - n - 2] == s[i - 1]);
                }
            }
            assert forall|k: int| i - n - 1 <= k < j - n - 1 + id.len() implies b[k] != '\n' by {
                assert(s[k + n + 1] == b[k]);
            }
            assert(hid::names_hub(b, i - n - 1, j - n - 1));
        } else {
            assert(j + id.len() <= n);
            // The key stands in one line with the name, or else the break would
            // stand within it.
            assert(i + key.len() <= n) by {
                if i + key.len() > n {
                    assert(s.subrange(i, i + key.len())[n - i] == '\n');
                }
            }
            assert(a.subrange(i, i + key.len()) =~= s.subrange(i, i + key.len()));
            assert(a.subrange(j, j + id.len()) =~= s.subrange(j, j + id.len()));
            assert(hid::line_starts(a, i)) by {
                if i > 0 {
                    assert(a[i - 1] == s[i - 1]);
                }
            }
            assert forall|k: int| i <= k < j + id.len() implies a[k] != '\n' by {
                assert(s[k] == a[k]);
            }
            assert(hid::names_hub(a, i, j));
        }
    }
}

} // verus!
