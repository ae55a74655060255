//! What holds of digits, of trimming and of the order of keys.

use crate::ordered;
use crate::ordered::OrderedMap;
use crate::text;
use vstd::prelude::*;

verus! {

/// Digits stand in the order of their character codes, hexadecimal letters too.
pub proof fn law_digits_by_code(d: nat)
    ensures
        d < 10 ==> text::digit_char(d) as nat == 48 + d,
        d < 10 ==> text::hex_char(d) as nat == 48 + d,
        10 <= d < 16 ==> text::hex_char(d) as nat == 55 + d,
{
}

/// The value of a hexadecimal digit, by its character code.
pub open spec fn hex_value(c: char) -> int {
    if c as int >= 65 {
        c as int - 55
    } else {
        c as int - 48
    }
}

/// Four hexadecimal digits, highest first, read back as the number.
pub proof fn law_hex_reads_back(n: u16)
    ensures
        text::hex4_text(n).len() == 4,
        ({
            let s = text::hex4_text(n);
            n == 4096 * hex_value(s[0]) + 256 * hex_value(s[1]) + 16 * hex_value(s[2]) + hex_value(
                s[3],
            )
        }),
{
    let s = text::hex4_text(n);
    law_digits_by_code((n / 4096) as nat);
    law_digits_by_code((n / 256 % 16) as nat);
    law_digits_by_code((n / 16 % 16) as nat);
    law_digits_by_code((n % 16) as nat);
    assert(hex_value(s[0]) == n / 4096);
    assert(hex_value(s[1]) == n / 256 % 16);
    assert(hex_value(s[2]) == n / 16 % 16);
    assert(hex_value(s[3]) == n % 16);
}

/// A decimal text is one digit longer for ten times the number, and ends with
/// the digit that was added.
pub proof fn law_decimal_by_digit(n: nat, d: nat)
    requires
        n > 0,
        d < 10,
    ensures
        text::decimal_text(10 * n + d).len() == text::decimal_text(n).len() + 1,
        text::decimal_text(10 * n + d).last() as nat == 48 + d,
        text::decimal_text(10 * n + d).drop_last() == text::decimal_text(n),
        text::decimal_text(d).len() == 1,
        text::decimal_text(d)[0] as nat == 48 + d,
{
    law_digits_by_code(d);
    assert((10 * n + d) / 10 == n);
    assert((10 * n + d) % 10 == d);
    assert(text::decimal_text(10 * n + d).drop_last() =~= text::decimal_text(n));
}

proof fn lemma_leading_zero(s: Seq<char>)
    ensures
        text::digits_value(seq!['0'] + s) == text::digits_value(s),
    decreases s.len(),
{
    let z = seq!['0'] + s;
    if s.len() == 0 {
        assert(z.drop_last() =~= Seq::<char>::empty());
        assert(z.last() == '0');
        assert(text::digits_value(Seq::<char>::empty()) == 0);
    } else {
        lemma_leading_zero(s.drop_last());
        assert(z.drop_last() =~= seq!['0'] + s.drop_last());
        assert(z.last() == s.last());
    }
}

/// A text that denotes a byte denotes the same one after a zero or a plus sign;
/// no text is empty, no text holds anything but digits after its first character.
pub proof fn law_texts_of_bytes(s: Seq<char>, i: int)
    ensures
        text::byte_denoted(Seq::<char>::empty()) is None,
        s.len() > 0 && s[0] != '+' ==> text::byte_denoted(seq!['0'] + s) == text::byte_denoted(s),
        s.len() > 0 && s[0] != '+' ==> text::byte_denoted(seq!['+'] + s) == text::byte_denoted(s),
        0 < i < s.len() && !('0' <= s[i] <= '9') ==> text::byte_denoted(s) is None,
        s.len() > 0 && s[0] != '+' && !('0' <= s[0] <= '9') ==> text::byte_denoted(s) is None,
{
    if s.len() > 0 && s[0] != '+' {
        let z = seq!['0'] + s;
        let p = seq!['+'] + s;
        lemma_leading_zero(s);
        assert(z[0] == '0');
        assert(text::without_plus(z) == z);
        assert(text::without_plus(p) =~= s);
        assert(text::without_plus(s) == s);
        if forall|k: int| 0 <= k < s.len() ==> text::is_digit(#[trigger] s[k]) {
            assert forall|k: int| 0 <= k < z.len() implies text::is_digit(#[trigger] z[k]) by {
                if k > 0 {
                    assert(text::is_digit(s[k - 1]));
                }
            }
        } else {
            let k = choose|k: int| 0 <= k < s.len() && !text::is_digit(#[trigger] s[k]);
            assert(z[k + 1] == s[k]);
        }
        assert(text::byte_denoted(z) == text::byte_denoted(s));
        if !('0' <= s[0] <= '9') {
            assert(!text::is_digit(text::without_plus(s)[0]));
        }
    }
    if 0 < i < s.len() && !('0' <= s[i] <= '9') {
        let d = text::without_plus(s);
        if s[0] == '+' {
            assert(d[i - 1] == s[i]);
            assert(!text::is_digit(d[i - 1]));
        } else {
            assert(!text::is_digit(d[i]));
        }
    }
}

/// Digits put one after the other denote a byte if and only if they make up a
/// number that is one.
pub proof fn law_byte_by_digit(s: Seq<char>, c: char)
    requires
        s.len() > 0,
        s[0] != '+',
        '0' <= c <= '9',
    ensures
        text::byte_denoted(s) matches Some(n) ==> match text::byte_denoted(s.push(c)) {
            Some(m) => m == 10 * n + (c as int - 48),
            None => 10 * n + (c as int - 48) > 255,
        },
        text::byte_denoted(s) is None ==> text::byte_denoted(s.push(c)) is None,
        text::byte_denoted(seq![c]) == Some((c as int - 48) as u8),
{
    let t = s.push(c);
    assert(t.drop_last() =~= s);
    assert(text::without_plus(t) == t);
    assert(text::without_plus(s) == s);
    assert(text::digits_value(t) == text::digits_value(s) * 10 + (c as int - 48));
    if forall|k: int| 0 <= k < s.len() ==> text::is_digit(#[trigger] s[k]) {
        assert forall|k: int| 0 <= k < t.len() implies text::is_digit(#[trigger] t[k]) by {
            if k < s.len() {
                assert(text::is_digit(s[k]));
            }
        }
    } else {
        let k = choose|k: int| 0 <= k < s.len() && !text::is_digit(#[trigger] s[k]);
        assert(t[k] == s[k]);
    }
    let one = seq![c];
    assert(one.drop_last() =~= Seq::<char>::empty());
    assert(text::digits_value(Seq::<char>::empty()) == 0);
    assert(text::without_plus(one) == one);
    assert(text::is_digit(one[0]));
}

/// Blanks, tabs and line ends are white space; what can be printed is not.
pub proof fn law_white_space_of_plain_text(c: char)
    requires
        c as nat <= 127,
    ensures
        text::is_white_space(c) <==> c == ' ' || c == '\t' || c == '\n' || c == '\r' || c as nat
            == 11 || c as nat == 12,
{
}

proof fn lemma_trimmed_start(s: Seq<char>) -> (a: int)
    ensures
        0 <= a <= s.len(),
        text::trimmed_start(s) == s.skip(a),
        forall|k: int| 0 <= k < a ==> text::is_white_space(#[trigger] s[k]),
        a < s.len() ==> !text::is_white_space(s[a]),
    decreases s.len(),
{
    if s.len() > 0 && text::is_white_space(s[0]) {
        let a = lemma_trimmed_start(s.skip(1));
        assert(s.skip(1).skip(a) =~= s.skip(a + 1));
        assert forall|k: int| 0 <= k < a + 1 implies text::is_white_space(#[trigger] s[k]) by {
            if k > 0 {
                assert(s.skip(1)[k - 1] == s[k]);
            }
        }
        if a + 1 < s.len() {
            assert(s.skip(1)[a] == s[a + 1]);
        }
        a + 1
    } else {
        assert(s.skip(0) =~= s);
        0
    }
}

proof fn lemma_trimmed_end(s: Seq<char>) -> (b: int)
    ensures
        0 <= b <= s.len(),
        text::trimmed_end(s) == s.take(b),
        forall|k: int| b <= k < s.len() ==> text::is_white_space(#[trigger] s[k]),
        b > 0 ==> !text::is_white_space(s[b - 1]),
    decreases s.len(),
{
    if s.len() > 0 && text::is_white_space(s.last()) {
        let b = lemma_trimmed_end(s.drop_last());
        assert(s.drop_last().take(b) =~= s.take(b));
        assert forall|k: int| b <= k < s.len() implies text::is_white_space(#[trigger] s[k]) by {
            if k < s.len() - 1 {
                assert(s.drop_last()[k] == s[k]);
            }
        }
        if b > 0 {
            assert(s.drop_last()[b - 1] == s[b - 1]);
        }
        b
    } else {
        assert(s.take(s.len() as int) =~= s);
        s.len() as int
    }
}

/// Trimming takes away white space at both ends and nothing else, and leaves
/// none there.
pub proof fn law_trimming(s: Seq<char>)
    ensures
        exists|a: int, b: int|
            #![trigger s.subrange(a, b)]
            0 <= a <= b <= s.len() && text::trimmed(s) == s.subrange(a, b) && (forall|k: int|
                0 <= k < a || b <= k < s.len() ==> text::is_white_space(#[trigger] s[k])),
        text::trimmed(s).len() > 0 ==> !text::is_white_space(text::trimmed(s)[0])
            && !text::is_white_space(text::trimmed(s).last()),
{
    let a = lemma_trimmed_start(s);
    let t = s.skip(a);
    let b = lemma_trimmed_end(t);
    assert(t.take(b) =~= s.subrange(a, a + b));
    assert forall|k: int| 0 <= k < a || a + b <= k < s.len() implies text::is_white_space(
        #[trigger] s[k],
    ) by {
        if k >= a + b {
            assert(t[k - a] == s[k]);
        }
    }
    let r = text::trimmed(s);
    assert(r == s.subrange(a, a + b));
    if r.len() > 0 {
        assert(r[0] == s[a]);
        assert(r.last() == t[b - 1]);
    }
}

/// Texts are ordered by their first difference: by the characters there, or by
/// which of them ends there.
pub proof fn law_texts_by_first_difference(a: Seq<char>, b: Seq<char>, p: int)
    requires
        0 <= p <= a.len(),
        p <= b.len(),
        forall|k: int| 0 <= k < p ==> #[trigger] a[k] == b[k],
    ensures
        p < a.len() && p < b.len() && a[p] < b[p] ==> ordered::text_before(a, b)
            && !ordered::text_before(b, a),
        p == a.len() && p < b.len() ==> ordered::text_before(a, b) && !ordered::text_before(b, a),
        p == a.len() && p == b.len() ==> !ordered::text_before(a, b),
    decreases p,
{
    if p > 0 {
        assert(a[0] == b[0]);
        assert forall|k: int| 0 <= k < p - 1 implies #[trigger] a.skip(1)[k] == b.skip(1)[k] by {
            assert(a[k + 1] == b[k + 1]);
        }
        law_texts_by_first_difference(a.skip(1), b.skip(1), p - 1);
    }
}

/// Entries by number rise with the number.
pub proof fn law_numbered_entries_rise<V>(m: OrderedMap<u8, V>, i: int, j: int)
    requires
        m.wf(),
        0 <= i < j < m.entries().len(),
    ensures
        m.entries()[i].0 < m.entries()[j].0,
{
    m.law_entries_are_sorted();
}

/// Entries by name rise in the order of their first difference: no name stands
/// after one that it is the beginning of, or that has a later character where
/// they first differ.
pub proof fn law_named_entries_rise<V>(m: OrderedMap<String, V>, i: int, j: int, p: int)
    requires
        m.wf(),
        0 <= i < j < m.entries().len(),
        0 <= p <= m.entries()[i].0.len(),
        p <= m.entries()[j].0.len(),
        forall|k: int| 0 <= k < p ==> #[trigger] m.entries()[i].0[k] == m.entries()[j].0[k],
    ensures
        p < m.entries()[j].0.len(),
        p < m.entries()[i].0.len() ==> m.entries()[i].0[p] <= m.entries()[j].0[p],
{
    m.law_entries_are_sorted();
    let a = m.entries()[i].0;
    let b = m.entries()[j].0;
    assert(ordered::text_before(a, b));
    law_texts_by_first_difference(a, b, p);
    law_texts_by_first_difference(b, a, p);
}

} // verus!
