//! LED packets of the hub, and the duty gradient they show.

use crate::binary64;
use crate::binary64::{Binary64, Number};
use crate::curve;
use crate::curve::blended;
use vstd::prelude::*;

verus! {

/// Length of every LED report.
pub const RGB_REPORT_LEN: usize = 353;

/// One steady color.
pub const MODE_STATIC: u8 = 0x01;

/// Slow fading in and out.
pub const MODE_BREATHING: u8 = 0x02;

/// A pattern that runs along the fans.
pub const MODE_RUNWAY: u8 = 0x1C;

/// Animation speeds, slowest first.
pub const SPEEDS: [u8; 5] = [0x02, 0x01, 0x00, 0xFF, 0xFE];

const TRANSACTION_ID: u8 = 0xE0;

/// Six fans of sixteen LEDs each.
pub const LEDS_PER_CHANNEL: usize = 96;

/// One stop of the duty gradient.
#[derive(Debug, Clone, Copy, PartialEq)]
pub struct ColorStop {
    /// The duty, in percent.
    pub duty: u8,
    /// Red, green and blue.
    pub color: [u8; 3],
}

/// A report that starts with `head` and is zero after it.
pub open spec fn padded(head: Seq<u8>) -> Seq<u8> {
    Seq::new(
        RGB_REPORT_LEN as nat,
        |i: int|
            if i < head.len() {
                head[i]
            } else {
                0
            },
    )
}

/// The channel and the number of fans, packed into one byte: the channel,
/// counted from zero, in the high half.
pub open spec fn chain_byte(channel: u8, num_fans: u8) -> int {
    (channel - 1) % 16 * 16 + num_fans
}

/// Opens an update of `channel` and declares how many fans are chained to it.
pub fn start_packet(channel: u8, num_fans: u8) -> (p: [u8; RGB_REPORT_LEN])
    requires
        channel >= 1,
        chain_byte(channel, num_fans) <= 255,
    ensures
        p@ == padded(seq![0xE0, 0x10, 0x60, chain_byte(channel, num_fans) as u8]),
{
    let mut p: [u8; RGB_REPORT_LEN] = [0u8; 353];
    p[0] = TRANSACTION_ID;
    p[1] = 0x10;
    p[2] = 0x60;
    let c: u8 = channel - 1;
    assert(c << 4 == c % 16 * 16) by (bit_vector);
    p[3] = (c << 4) + num_fans;
    p
}

/// Commits an animation with its speed and brightness.
pub fn commit_packet(channel: u8, mode: u8, speed: u8, brightness: u8) -> (p: [u8; RGB_REPORT_LEN])
    requires
        1 <= channel <= 240,
    ensures
        p@ == padded(seq![0xE0, (0x10 + (channel - 1)) as u8, mode, speed, 0x00, brightness]),
{
    let mut p: [u8; RGB_REPORT_LEN] = [0u8; 353];
    p[0] = TRANSACTION_ID;
    p[1] = 0x10 + (channel - 1);
    p[2] = mode;
    p[3] = speed;
    p[4] = 0x00;
    p[5] = brightness;
    p
}

/// Component `k` of a color on the wire: red, blue, green.
pub open spec fn wire_component(color: (u8, u8, u8), k: int) -> u8 {
    if k == 0 {
        color.0
    } else if k == 1 {
        color.2
    } else {
        color.1
    }
}

/// The colors of all LEDs of a channel, cycling through `colors`. No colors
/// leave every LED at zero.
pub open spec fn color_bytes(channel: u8, colors: Seq<(u8, u8, u8)>) -> Seq<u8> {
    Seq::new(
        RGB_REPORT_LEN as nat,
        |i: int|
            if i == 0 {
                0xE0
            } else if i == 1 {
                (0x30 + (channel - 1)) as u8
            } else if colors.len() > 0 && i < 2 + 3 * LEDS_PER_CHANNEL {
                wire_component(colors[(i - 2) / 3 % colors.len() as int], (i - 2) % 3)
            } else {
                0
            },
    )
}

/// Sets the colors of all LEDs of a channel, cycling through `colors`; the
/// wire order is red, blue, green. One color fills the channel, none leaves
/// the header alone.
pub fn multi_color_packet(channel: u8, colors: &[(u8, u8, u8)]) -> (p: [u8; RGB_REPORT_LEN])
    requires
        1 <= channel <= 208,
    ensures
        p@ == color_bytes(channel, colors@),
{
    let mut p: [u8; RGB_REPORT_LEN] = [0u8; 353];
    p[0] = TRANSACTION_ID;
    p[1] = 0x30 + (channel - 1);
    if colors.len() == 0 {
        assert(p@ =~= color_bytes(channel, colors@));
        return p;
    }
    let mut i: usize = 0;
    let ghost want = color_bytes(channel, colors@);
    while i < LEDS_PER_CHANNEL
        invariant
            colors@.len() > 0,
            want == color_bytes(channel, colors@),
            i <= LEDS_PER_CHANNEL,
            p@.len() == RGB_REPORT_LEN,
            forall|k: int| 0 <= k < 2 + 3 * i ==> p@[k] == want[k],
            forall|k: int| 2 + 3 * i <= k < RGB_REPORT_LEN ==> p@[k] == 0,
        decreases LEDS_PER_CHANNEL - i,
    {
        let (r, g, b) = colors[i % colors.len()];
        p[2 + i * 3] = r;
        p[2 + i * 3 + 1] = b;
        p[2 + i * 3 + 2] = g;
        assert(want[2 + 3 * i] == r);
        assert(want[2 + 3 * i + 1] == b);
        assert(want[2 + 3 * i + 2] == g);
        i = i + 1;
    }
    assert(p@ =~= want);
    p
}

/// A color as a triple.
pub open spec fn triple(c: [u8; 3]) -> (u8, u8, u8) {
    (c@[0], c@[1], c@[2])
}

/// The color that stands at the fraction `f` from `a` to `b`.
pub open spec fn mixed(f: Number, a: (u8, u8, u8), b: (u8, u8, u8)) -> (u8, u8, u8) {
    (curve::blend(f, a.0, b.0), curve::blend(f, a.1, b.1), curve::blend(f, a.2, b.2))
}

/// The color from the first pair of neighbouring stops, counted by the right
/// one from `i` on, that ends at or after `duty`.
pub open spec fn color_from(stops: Seq<ColorStop>, duty: u8, i: int) -> (u8, u8, u8)
    decreases stops.len() - i,
{
    if i >= stops.len() {
        triple(stops.last().color)
    } else if duty <= stops[i].duty {
        let f = curve::fraction(
            binary64::whole(duty as nat),
            binary64::whole(stops[i - 1].duty as nat),
            binary64::whole(stops[i].duty as nat),
        );
        mixed(f, triple(stops[i - 1].color), triple(stops[i].color))
    } else {
        color_from(stops, duty, i + 1)
    }
}

/// The color of a duty: the end colors outside the stops, the straight line
/// between neighbouring stops inside them.
pub open spec fn gradient(stops: Seq<ColorStop>, duty: u8) -> (u8, u8, u8) {
    if duty <= stops[0].duty {
        triple(stops[0].color)
    } else if duty >= stops.last().duty {
        triple(stops.last().color)
    } else {
        color_from(stops, duty, 1)
    }
}

/// Interpolates each component over sorted stops, clamped at both ends.
pub fn duty_color(stops: &[ColorStop], duty: u8) -> (c: (u8, u8, u8))
    requires
        stops@.len() > 0,
    ensures
        c == gradient(stops@, duty),
{
    if duty <= stops[0].duty {
        let c: [u8; 3] = stops[0].color;
        return (c[0], c[1], c[2]);
    }
    let last: [u8; 3] = stops[stops.len() - 1].color;
    if duty >= stops[stops.len() - 1].duty {
        return (last[0], last[1], last[2]);
    }
    let d: Binary64 = Binary64::from_u64(duty as u64);
    let mut i: usize = 1;
    while i < stops.len()
        invariant
            1 <= i <= stops@.len(),
            d@ == binary64::whole(duty as nat),
            gradient(stops@, duty) == color_from(stops@, duty, i as int),
        decreases stops@.len() - i,
    {
        if duty <= stops[i].duty {
            let lo: Binary64 = Binary64::from_u64(stops[i - 1].duty as u64);
            let hi: Binary64 = Binary64::from_u64(stops[i].duty as u64);
            let f: Binary64 = d.minus(lo).over(hi.minus(lo));
            let a: [u8; 3] = stops[i - 1].color;
            let b: [u8; 3] = stops[i].color;
            return (blended(f, a[0], b[0]), blended(f, a[1], b[1]), blended(f, a[2], b[2]));
        }
        i = i + 1;
    }
    (last[0], last[1], last[2])
}

/// The bin of a duty, out of `buckets` bins: a hundredth of `buckets - 1` per
/// percent, rounded down.
pub open spec fn bucket_of(duty: u8, buckets: u8) -> int {
    let d = if duty < 100 {
        duty as int
    } else {
        100
    };
    d * (buckets - 1) / 100
}

/// Sorts a duty into one of `buckets` bins.
pub fn bucket(duty: u8, buckets: u8) -> (b: u8)
    requires
        buckets >= 1,
    ensures
        b == bucket_of(duty, buckets),
        b < buckets,
{
    let d: u16 = if duty < 100 {
        duty as u16
    } else {
        100
    };
    let n: u16 = buckets as u16;
    assert(d * (n - 1) <= 100 * (n - 1)) by (nonlinear_arith)
        requires
            d <= 100,
            n >= 1,
    ;
    ((d * (n - 1)) / 100) as u8
}

/// The least duty, up to 100, that reaches bin `b` out of `buckets`.
pub open spec fn bucket_edge(b: u8, buckets: u8) -> int {
    let d = (100 * b + buckets - 2) / (buckets - 1);
    if d < 100 {
        d
    } else {
        100
    }
}

/// The lower edge of bin `b`, as a duty that stands for the whole bin.
pub fn bucket_duty(b: u8, buckets: u8) -> (d: u8)
    requires
        buckets >= 2,
    ensures
        d == bucket_edge(b, buckets),
{
    let denom: u32 = (buckets - 1) as u32;
    let num: u32 = b as u32 * 100;
    let d: u32 = (num + denom - 1) / denom;
    if d < 100 {
        d as u8
    } else {
        100
    }
}

/// Whether some duty falls into bin `b`.
pub open spec fn reachable(b: u8, buckets: u8) -> bool {
    exists|duty: u8| #[trigger] bucket_of(duty, buckets) == b
}

proof fn lemma_edge(b: u8, buckets: u8)
    requires
        buckets >= 2,
    ensures
        ({
            let m = buckets - 1;
            let e = (100 * b + m - 1) / m;
            &&& 100 * b <= e * m < 100 * b + m
            &&& (e - 1) * m < 100 * b
            &&& e >= 0
        }),
{
    let m = buckets - 1;
    let n = 100 * b + m - 1;
    let e = n / m;
    vstd::arithmetic::div_mod::lemma_fundamental_div_mod(n, m);
    vstd::arithmetic::div_mod::lemma_mod_bound(n, m);
    vstd::arithmetic::div_mod::lemma_div_pos_is_pos(n, m);
    assert(m * e == e * m) by (nonlinear_arith);
    assert((e - 1) * m == e * m - m) by (nonlinear_arith);
}

/// The representative of a bin lies in that bin, for every bin that any duty
/// falls into, and no duty of the bin is less.
pub proof fn law_bucket_duty_inverts_bucket(b: u8, buckets: u8)
    requires
        buckets >= 2,
        reachable(b, buckets),
    ensures
        bucket_of(bucket_edge(b, buckets) as u8, buckets) == b,
        forall|duty: u8| #[trigger]
            bucket_of(duty, buckets) == b ==> bucket_edge(b, buckets) <= duty,
{
    let m = buckets - 1;
    let e = (100 * b + m - 1) / m;
    lemma_edge(b, buckets);
    assert forall|duty: u8| #[trigger] bucket_of(duty, buckets) == b implies e <= duty && e <= 100
        && e * m < 100 * b + 100 by {
        let d = if duty < 100 {
            duty as int
        } else {
            100
        };
        let p = d * m;
        assert(100 * b <= p < 100 * b + 100);
        if e > d {
            assert((e - 1) * m >= d * m) by (nonlinear_arith)
                requires
                    e - 1 >= d,
                    m >= 1,
            ;
        }
        assert(e * m <= d * m) by (nonlinear_arith)
            requires
                e <= d,
                m >= 1,
        ;
    }
    let duty = choose|duty: u8| #[trigger] bucket_of(duty, buckets) == b;
    assert(bucket_of(duty, buckets) == b);
    assert(bucket_edge(b, buckets) == e);
}

/// With at most 101 bins, some duty falls into every bin.
pub proof fn law_every_bucket_is_reachable(b: u8, buckets: u8)
    requires
        2 <= buckets <= 101,
        b < buckets,
    ensures
        reachable(b, buckets),
{
    let m = buckets - 1;
    let e = (100 * b + m - 1) / m;
    lemma_edge(b, buckets);
    if e > 100 {
        assert((e - 1) * m >= 100 * m) by (nonlinear_arith)
            requires
                e - 1 >= 100,
                m >= 1,
        ;
    }
    assert(e <= 100);
    let p = e * m;
    assert(p / 100 == b);
    assert(bucket_of(e as u8, buckets) == b);
}

/// A higher duty never falls into a lower bin.
pub proof fn law_bucket_monotone(d1: u8, d2: u8, buckets: u8)
    requires
        buckets >= 1,
        d1 <= d2,
    ensures
        bucket_of(d1, buckets) <= bucket_of(d2, buckets),
{
    let a = if d1 < 100 {
        d1 as int
    } else {
        100
    };
    let b = if d2 < 100 {
        d2 as int
    } else {
        100
    };
    assert(a * (buckets - 1) <= b * (buckets - 1)) by (nonlinear_arith)
        requires
            a <= b,
            buckets >= 1,
    ;
}

/// One color fills every LED of the channel.
pub proof fn law_single_color_is_uniform(channel: u8, color: (u8, u8, u8), led: int)
    requires
        0 <= led < LEDS_PER_CHANNEL,
    ensures
        color_bytes(channel, seq![color]).subrange(2 + 3 * led, 5 + 3 * led) == seq![
            color.0,
            color.2,
            color.1,
        ],
{
    let bytes = color_bytes(channel, seq![color]);
    assert((3 * led) / 3 % 1 == 0);
    assert((3 * led + 1) / 3 % 1 == 0);
    assert((3 * led + 2) / 3 % 1 == 0);
    assert(bytes.subrange(2 + 3 * led, 5 + 3 * led) =~= seq![color.0, color.2, color.1]);
}

} // verus!
