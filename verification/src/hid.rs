//! Wire protocol of the hub: reports, and the writes that carry them.

use crate::rgb;
use crate::rgb::{
    commit_packet, multi_color_packet, start_packet, MODE_STATIC, SPEEDS,
};
use crate::text;
use crate::text::{chars_of, decimal, hex4};
use vstd::arithmetic::power2::*;
use vstd::prelude::*;

verus! {

pub const VENDOR_ID: u16 = 0x0cf2;

pub const PRODUCT_ID: u16 = 0xa105;

pub const REPORT_ID: u8 = 224;

/// Length of an input report.
pub const REPORT_LEN: usize = 65;

/// The speed of a duty on the wire: the fans turn at 250 to 2000 revolutions
/// per minute, in units of 20.
pub open spec fn wire_speed(duty: u8) -> int {
    let d = if duty < 100 {
        duty as int
    } else {
        100
    };
    (500 + 35 * d) / 40
}

/// The wire byte of a duty.
pub fn speed_byte(duty: u8) -> (b: u8)
    ensures
        b == wire_speed(duty),
        12 <= b <= 100,
{
    let d: u32 = if duty < 100 {
        duty as u32
    } else {
        100
    };
    ((500 + 35 * d) / 40) as u8
}

/// A higher duty is never a lower speed.
pub proof fn law_speed_monotone(d1: u8, d2: u8)
    requires
        d1 <= d2,
    ensures
        wire_speed(d1) <= wire_speed(d2),
{
}

/// Turns the synchronisation with the mainboard's LED header off.
pub fn rgb_sync_off_buf() -> (p: [u8; 7])
    ensures
        p@ == seq![REPORT_ID, 16u8, 97, 0, 0, 0, 0],
{
    [REPORT_ID, 16, 97, 0, 0, 0, 0]
}

/// The bit of a channel in the mode byte; past the fourth channel none is left.
pub open spec fn mode_bit(channel: u8) -> u8 {
    if channel == 1 {
        0x10
    } else if channel == 2 {
        0x20
    } else if channel == 3 {
        0x40
    } else if channel == 4 {
        0x80
    } else {
        0
    }
}

/// Each of the four channels has a bit of its own in the mode byte: the first
/// has the lowest of the high half, and each further one the next.
pub proof fn law_mode_bits_are_disjoint(channel: u8, other: u8)
    requires
        1 <= channel <= 4,
        1 <= other <= 4,
    ensures
        mode_bit(channel) == 16 * pow2((channel - 1) as nat),
        channel < 4 ==> mode_bit((channel + 1) as u8) == 2 * mode_bit(channel),
        channel != other ==> mode_bit(channel) & mode_bit(other) == 0,
        channel != other ==> mode_bit(channel) != mode_bit(other),
{
    lemma2_to64();
    assert(0x10u8 & 0x20u8 == 0 && 0x10u8 & 0x40u8 == 0 && 0x10u8 & 0x80u8 == 0) by (bit_vector);
    assert(0x20u8 & 0x10u8 == 0 && 0x20u8 & 0x40u8 == 0 && 0x20u8 & 0x80u8 == 0) by (bit_vector);
    assert(0x40u8 & 0x10u8 == 0 && 0x40u8 & 0x20u8 == 0 && 0x40u8 & 0x80u8 == 0) by (bit_vector);
    assert(0x80u8 & 0x10u8 == 0 && 0x80u8 & 0x20u8 == 0 && 0x80u8 & 0x40u8 == 0) by (bit_vector);
}

/// Puts one channel in manual mode, so that it no longer follows the
/// mainboard.
pub fn manual_mode_buf(channel: u8) -> (p: [u8; 4])
    requires
        1 <= channel <= 8,
    ensures
        p@ == seq![REPORT_ID, 16, 98, mode_bit(channel)],
        p@[0] == 224 && p@[1] == 16 && p@[2] == 98,
        channel <= 4 ==> p@[3] == 16 * pow2((channel - 1) as nat),
        channel > 4 ==> p@[3] == 0,
{
    let n: u8 = channel - 1;
    assert(0x10u8 << 0u8 == 0x10u8) by (bit_vector);
    assert(0x10u8 << 1u8 == 0x20u8) by (bit_vector);
    assert(0x10u8 << 2u8 == 0x40u8) by (bit_vector);
    assert(0x10u8 << 3u8 == 0x80u8) by (bit_vector);
    assert(4 <= n < 8 ==> 0x10u8 << n == 0) by (bit_vector);
    proof {
        lemma2_to64();
    }
    [REPORT_ID, 16, 98, 0x10u8 << n]
}

/// Sets the speed of one channel.
pub fn speed_buf(channel: u8, duty: u8) -> (p: [u8; 4])
    requires
        channel <= 224,
    ensures
        p@ == seq![REPORT_ID, (31 + channel) as u8, 0, wire_speed(duty) as u8],
{
    [REPORT_ID, 31 + channel, 0, speed_byte(duty)]
}

/// The speed of a channel in an input report: two bytes, the high one first.
pub open spec fn rpm_in(report: Seq<u8>, channel: u8) -> Option<u16> {
    if 1 <= channel <= 4 && report.len() >= 2 * channel + 2 {
        Some((report[2 * channel as int] * 256 + report[2 * channel + 1]) as u16)
    } else {
        None
    }
}

/// Reads the speed of a channel out of an input report.
pub fn parse_rpm(report: &[u8], channel: u8) -> (rpm: Option<u16>)
    ensures
        rpm == rpm_in(report@, channel),
{
    if channel < 1 || channel > 4 {
        return None;
    }
    let i: usize = 2 + (channel as usize - 1) * 2;
    if report.len() < i + 2 {
        return None;
    }
    Some(report[i] as u16 * 256 + report[i + 1] as u16)
}

/// The request code that asks the kernel for an input report of `len` bytes:
/// read and write, type `H`, number 10. A length above 14 bits would run into
/// the other fields.
pub fn hidiocginput_code(len: usize) -> (code: u64)
    ensures
        code == (3u64 << 30) | ((len as u64) << 16) | (0x48u64 << 8) | 0x0Au64,
        len < 0x4000 ==> code == 0xC000_480A + len * 0x1_0000,
{
    let n: u64 = len as u64;
    assert(n < 0x4000 ==> (3u64 << 30) | (n << 16) | (0x48u64 << 8) | 0x0Au64 == 0xC000_480A + n
        * 0x1_0000) by (bit_vector);
    (3u64 << 30) | (n << 16) | (0x48u64 << 8) | 0x0Au64
}

/// Whether `pattern` stands in `s` at `i`.
pub open spec fn stands_at(s: Seq<char>, pattern: Seq<char>, i: int) -> bool {
    0 <= i && i + pattern.len() <= s.len() && s.subrange(i, i + pattern.len()) == pattern
}

/// Whether a line of `s` starts at `i`.
pub open spec fn line_starts(s: Seq<char>, i: int) -> bool {
    i == 0 || (0 < i <= s.len() && s[i - 1] == '\n')
}

/// Whether `i` and everything up to `j` stand in one line.
pub open spec fn same_line(s: Seq<char>, i: int, j: int) -> bool {
    forall|k: int| i <= k < j ==> s[k] != '\n'
}

/// How the hub names itself: its vendor and product numbers in hexadecimal.
pub open spec fn hub_id() -> Seq<char> {
    text::hex4_text(VENDOR_ID) + seq![':', '0', '0', '0', '0'] + text::hex4_text(PRODUCT_ID)
}

/// What the line with that name starts with.
pub open spec fn id_key() -> Seq<char> {
    seq!['H', 'I', 'D', '_', 'I', 'D', '=']
}

/// Whether the line that starts at `i` names the hub at `j`.
pub open spec fn names_hub(s: Seq<char>, i: int, j: int) -> bool {
    &&& line_starts(s, i)
    &&& stands_at(s, id_key(), i)
    &&& i <= j
    &&& stands_at(s, hub_id(), j)
    &&& same_line(s, i, j + hub_id().len())
}

/// Whether one of the lines of `s` names the hub.
pub open spec fn describes_hub(s: Seq<char>) -> bool {
    exists|i: int, j: int| names_hub(s, i, j)
}

fn standing_at(v: &Vec<char>, pattern: &Vec<char>, i: usize) -> (b: bool)
    requires
        i <= v@.len(),
    ensures
        b == stands_at(v@, pattern@, i as int),
{
    if v.len() - i < pattern.len() {
        return false;
    }
    let mut k: usize = 0;
    while k < pattern.len()
        invariant
            i + pattern@.len() <= v@.len(),
            i + pattern@.len() <= usize::MAX,
            k <= pattern@.len(),
            forall|m: int| 0 <= m < k ==> v@[i + m] == pattern@[m],
        decreases pattern@.len() - k,
    {
        if v[i + k] != pattern[k] {
            assert(v@.subrange(i as int, i + pattern@.len())[k as int] != pattern@[k as int]);
            return false;
        }
        k = k + 1;
    }
    assert(v@.subrange(i as int, i + pattern@.len()) =~= pattern@);
    true
}

fn hub_id_chars() -> (v: Vec<char>)
    ensures
        v@ == hub_id(),
        forall|k: int| 0 <= k < v@.len() ==> v@[k] != '\n',
{
    let mut v: Vec<char> = hex4(VENDOR_ID);
    let mut rest: Vec<char> = hex4(PRODUCT_ID);
    v.push(':');
    v.push('0');
    v.push('0');
    v.push('0');
    v.push('0');
    v.append(&mut rest);
    assert(v@ =~= hub_id());
    v
}

/// Whether a device description from the kernel is that of the hub.
pub fn uevent_matches(uevent: &str) -> (b: bool)
    ensures
        b == describes_hub(uevent@),
{
    let v: Vec<char> = chars_of(uevent);
    let id: Vec<char> = hub_id_chars();
    let key: Vec<char> = vec!['H', 'I', 'D', '_', 'I', 'D', '='];
    assert(key@ =~= id_key());
    let mut i: usize = 0;
    while i < v.len()
        invariant
            v@ == uevent@,
            id@ == hub_id(),
            key@ == id_key(),
            forall|k: int| 0 <= k < id@.len() ==> id@[k] != '\n',
            i <= v@.len(),
            forall|a: int, j: int| #![trigger names_hub(v@, a, j)] a < i ==> !names_hub(v@, a, j),
        decreases v@.len() - i,
    {
        if (i == 0 || v[i - 1] == '\n') && standing_at(&v, &key, i) {
            let mut j: usize = i;
            while j < v.len() && v[j] != '\n'
                invariant
                    v@ == uevent@,
                    id@ == hub_id(),
                    key@ == id_key(),
                    forall|k: int| 0 <= k < id@.len() ==> id@[k] != '\n',
                    line_starts(v@, i as int),
                    stands_at(v@, id_key(), i as int),
                    i <= j <= v@.len(),
                    same_line(v@, i as int, j as int),
                    forall|a: int, m: int| #![trigger names_hub(v@, a, m)]
                        a < i ==> !names_hub(v@, a, m),
                    forall|m: int| #![trigger names_hub(v@, i as int, m)]
                        m < j ==> !names_hub(v@, i as int, m),
                decreases v@.len() - j,
            {
                if standing_at(&v, &id, j) {
                    proof {
                        assert forall|k: int| i <= k < j + id@.len() implies v@[k] != '\n' by {
                            if k >= j {
                                assert(v@.subrange(j as int, j + id@.len())[k - j] == id@[k - j]);
                            }
                        }
                        assert(names_hub(v@, i as int, j as int));
                    }
                    return true;
                }
                j = j + 1;
            }
            proof {
                assert forall|m: int| #![trigger names_hub(v@, i as int, m)] !names_hub(
                    v@,
                    i as int,
                    m,
                ) by {
                    if names_hub(v@, i as int, m) {
                        assert(m >= j);
                        assert(hub_id().len() > 0);
                        assert(m + hub_id().len() <= v@.len());
                        assert(v@[j as int] != '\n');
                    }
                }
            }
        }
        i = i + 1;
    }
    proof {
        assert forall|a: int, j: int| #![trigger names_hub(v@, a, j)] !names_hub(v@, a, j) by {
            if names_hub(v@, a, j) && a >= i {
                assert(id_key().len() > 0);
            }
        }
    }
    false
}

/// One write to the hub.
#[derive(Debug, Clone)]
pub struct HubWrite {
    /// What the write is for, as an error message names it.
    pub what: String,
    /// The report.
    pub bytes: Vec<u8>,
    /// How long the hub needs before the next write, in milliseconds.
    pub pause_ms: u64,
}

/// A write, as values.
pub struct Write {
    pub what: Seq<char>,
    pub bytes: Seq<u8>,
    pub pause_ms: u64,
}

impl View for HubWrite {
    type V = Write;

    open spec fn view(&self) -> Write {
        Write { what: self.what@, bytes: self.bytes@, pause_ms: self.pause_ms }
    }
}

/// Writes, as values.
pub open spec fn writes(plan: Seq<HubWrite>) -> Seq<Write> {
    Seq::new(plan.len(), |i: int| plan[i]@)
}

fn bytes_of<const N: usize>(a: &[u8; N]) -> (v: Vec<u8>)
    ensures
        v@ == a@,
{
    let mut v: Vec<u8> = Vec::new();
    let mut i: usize = 0;
    while i < N
        invariant
            i <= N,
            v@ == a@.take(i as int),
        decreases N - i,
    {
        v.push(a[i]);
        i = i + 1;
        assert(v@ =~= a@.take(i as int));
    }
    assert(a@.take(N as int) =~= a@);
    v
}

/// What a write to a channel is called.
pub open spec fn on_channel(what: Seq<char>, channel: u8) -> Seq<char> {
    what + text::decimal_text(channel as nat)
}

fn labelled(what: &str, channel: u8) -> (s: String)
    ensures
        s@ == on_channel(what@, channel),
{
    let mut s: String = what.to_owned();
    s.append(decimal(channel as u64).as_str());
    s
}

/// The write that puts a channel in manual mode.
pub open spec fn manual_write(channel: u8) -> Write {
    Write {
        what: on_channel("manual mode ch"@, channel),
        bytes: seq![REPORT_ID, 16, 98, mode_bit(channel)],
        pause_ms: 200,
    }
}

/// The writes that set the hub up: LED synchronisation off, then every channel
/// in manual mode. The hub loses writes that come too close together.
pub open spec fn init_plan(channels: Seq<u8>) -> Seq<Write> {
    seq![
        Write {
            what: "rgb sync off"@,
            bytes: seq![REPORT_ID, 16u8, 97, 0, 0, 0, 0],
            pause_ms: 200,
        },
    ] + Seq::new(channels.len(), |i: int| manual_write(channels[i]))
}

/// Sets the hub up.
pub fn init_writes(channels: &[u8]) -> (plan: Vec<HubWrite>)
    requires
        forall|i: int| 0 <= i < channels@.len() ==> 1 <= #[trigger] channels@[i] <= 8,
    ensures
        writes(plan@) == init_plan(channels@),
{
    let mut plan: Vec<HubWrite> = Vec::new();
    plan.push(
        HubWrite {
            what: "rgb sync off".to_owned(),
            bytes: bytes_of(&rgb_sync_off_buf()),
            pause_ms: 200,
        },
    );
    let mut i: usize = 0;
    while i < channels.len()
        invariant
            forall|k: int| 0 <= k < channels@.len() ==> 1 <= #[trigger] channels@[k] <= 8,
            i <= channels@.len(),
            plan@.len() == i + 1,
            forall|k: int| 0 <= k <= i ==> (#[trigger] plan@[k])@ == init_plan(channels@)[k],
        decreases channels@.len() - i,
    {
        let c: u8 = channels[i];
        plan.push(
            HubWrite {
                what: labelled("manual mode ch", c),
                bytes: bytes_of(&manual_mode_buf(c)),
                pause_ms: 200,
            },
        );
        assert(init_plan(channels@)[i + 1] == manual_write(c));
        i = i + 1;
    }
    assert(writes(plan@) =~= init_plan(channels@));
    plan
}

/// The write that sets the duty of a channel.
pub open spec fn duty_plan(channel: u8, duty: u8) -> Write {
    Write {
        what: on_channel("set duty ch"@, channel) + " "@ + text::decimal_text(duty as nat) + "%"@,
        bytes: seq![REPORT_ID, (31 + channel) as u8, 0, wire_speed(duty) as u8],
        pause_ms: 0,
    }
}

/// Sets the duty of a channel.
pub fn duty_write(channel: u8, duty: u8) -> (w: HubWrite)
    requires
        channel <= 224,
    ensures
        w@ == duty_plan(channel, duty),
{
    let mut what: String = labelled("set duty ch", channel);
    what.append(" ");
    what.append(decimal(duty as u64).as_str());
    what.append("%");
    HubWrite { what, bytes: bytes_of(&speed_buf(channel, duty)), pause_ms: 0 }
}

/// What the LED reports of a channel ask of its number and of the number of
/// its fans.
pub open spec fn led_addressable(channel: u8, num_fans: u8) -> bool {
    1 <= channel <= 208 && rgb::chain_byte(channel, num_fans) <= 255
}

/// The write that commits an animation.
pub open spec fn commit_write(
    channel: u8,
    mode: u8,
    speed: u8,
    brightness: u8,
    pause_ms: u64,
) -> Write {
    Write {
        what: on_channel("rgb commit ch"@, channel),
        bytes: rgb::padded(
            seq![0xE0, (0x10 + (channel - 1)) as u8, mode, speed, 0x00, brightness],
        ),
        pause_ms,
    }
}

/// The writes that show an animation: start, colors, commit.
pub open spec fn effect_plan(
    channel: u8,
    num_fans: u8,
    colors: Seq<(u8, u8, u8)>,
    mode: u8,
    speed: u8,
    brightness: u8,
) -> Seq<Write> {
    seq![
        Write {
            what: on_channel("rgb start ch"@, channel),
            bytes: rgb::padded(seq![0xE0, 0x10, 0x60, rgb::chain_byte(channel, num_fans) as u8]),
            pause_ms: 10,
        },
        Write {
            what: on_channel("rgb multi_color ch"@, channel),
            bytes: rgb::color_bytes(channel, colors),
            pause_ms: 10,
        },
        commit_write(channel, mode, speed, brightness, 10),
    ]
}

/// Shows an animation on a channel.
pub fn effect_writes(
    channel: u8,
    num_fans: u8,
    colors: &[(u8, u8, u8)],
    mode: u8,
    speed: u8,
    brightness: u8,
) -> (plan: Vec<HubWrite>)
    requires
        led_addressable(channel, num_fans),
    ensures
        writes(plan@) == effect_plan(channel, num_fans, colors@, mode, speed, brightness),
{
    let mut plan: Vec<HubWrite> = Vec::new();
    plan.push(
        HubWrite {
            what: labelled("rgb start ch", channel),
            bytes: bytes_of(&start_packet(channel, num_fans)),
            pause_ms: 10,
        },
    );
    plan.push(
        HubWrite {
            what: labelled("rgb multi_color ch", channel),
            bytes: bytes_of(&multi_color_packet(channel, colors)),
            pause_ms: 10,
        },
    );
    plan.push(
        HubWrite {
            what: labelled("rgb commit ch", channel),
            bytes: bytes_of(&commit_packet(channel, mode, speed, brightness)),
            pause_ms: 10,
        },
    );
    assert(writes(plan@) =~= effect_plan(channel, num_fans, colors@, mode, speed, brightness));
    plan
}

/// Changes the speed of the animation that a channel already shows: the commit
/// alone, so that the animation does not start over.
pub fn effect_speed_write(channel: u8, mode: u8, speed: u8, brightness: u8) -> (w: HubWrite)
    requires
        1 <= channel <= 240,
    ensures
        w@ == commit_write(channel, mode, speed, brightness, 0),
{
    HubWrite {
        what: labelled("rgb commit ch", channel),
        bytes: bytes_of(&commit_packet(channel, mode, speed, brightness)),
        pause_ms: 0,
    }
}

/// The writes that show one steady color.
pub open spec fn rgb_plan(
    channel: u8,
    num_fans: u8,
    color: (u8, u8, u8),
    brightness: u8,
) -> Seq<Write> {
    effect_plan(channel, num_fans, seq![color], MODE_STATIC, 0x02, brightness)
}

/// Shows one steady color on a channel.
pub fn rgb_writes(channel: u8, num_fans: u8, color: (u8, u8, u8), brightness: u8) -> (plan: Vec<
    HubWrite,
>)
    requires
        led_addressable(channel, num_fans),
    ensures
        writes(plan@) == rgb_plan(channel, num_fans, color, brightness),
{
    let colors: [(u8, u8, u8); 1] = [color];
    assert(colors@ =~= seq![color]);
    effect_writes(channel, num_fans, &colors, MODE_STATIC, SPEEDS[0], brightness)
}

/// The buffer in which an input report is asked for: its number, then zeros.
pub fn input_request() -> (p: [u8; REPORT_LEN])
    ensures
        p@ == Seq::new(
            REPORT_LEN as nat,
            |i: int|
                if i == 0 {
                    REPORT_ID
                } else {
                    0
                },
        ),
{
    let mut p: [u8; REPORT_LEN] = [0u8; 65];
    p[0] = REPORT_ID;
    p
}

} // verus!
