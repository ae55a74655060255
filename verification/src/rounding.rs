//! Rounding of exact quotients to 53 significant bits, ties to even.
//!
//! Everything here is about non-negative quotients `p / q`. The unit of the
//! result is left to the caller.

use vstd::arithmetic::div_mod::*;
use vstd::arithmetic::power2::*;
use vstd::prelude::*;

verus! {

/// 2 to the power 53: every integer below it has at most 53 significant bits.
pub const TWO_53: u64 = 9007199254740992;

/// 2 to the power 52: the least integer with exactly 53 significant bits.
pub const TWO_52: u64 = 4503599627370496;

/// The integer nearest to `p / q`; of two equally near ones, the even one.
pub open spec fn nearest_int(p: nat, q: nat) -> nat {
    let floor = p / q;
    let rest = p % q;
    if 2 * rest < q {
        floor
    } else if 2 * rest > q {
        floor + 1
    } else if floor % 2 == 0 {
        floor
    } else {
        floor + 1
    }
}

/// `p / q` rounded to 53 significant bits, and to no less than the nearest
/// integer: below 2 to the 53 that is the nearest integer, and above it half
/// of the quotient is rounded and the result doubled.
pub open spec fn round53(p: nat, q: nat) -> nat
    decreases p - q,
{
    if q == 0 {
        0
    } else if p < q * TWO_53 {
        nearest_int(p, q)
    } else {
        2 * round53(p, 2 * q)
    }
}

pub proof fn lemma_nearest_int_bounds(p: nat, q: nat)
    requires
        q > 0,
    ensures
        2 * (nearest_int(p, q) * q) <= 2 * p + q,
        2 * p <= 2 * (nearest_int(p, q) * q) + q,
        2 * p == 2 * (nearest_int(p, q) * q) + q ==> nearest_int(p, q) % 2 == 0,
        2 * (nearest_int(p, q) * q) == 2 * p + q ==> nearest_int(p, q) % 2 == 0,
{
    lemma_fundamental_div_mod(p as int, q as int);
    let floor = p / q;
    let rest = p % q;
    assert(p == q * floor + rest);
    assert(floor * q == q * floor) by (nonlinear_arith);
    assert((floor + 1) * q == q * floor + q) by (nonlinear_arith);
}

/// Rounding to the nearest integer keeps the order of the quotients.
proof fn lemma_nearest_int_monotone(p1: nat, q1: nat, p2: nat, q2: nat)
    requires
        q1 > 0,
        q2 > 0,
        p1 * q2 <= p2 * q1,
    ensures
        nearest_int(p1, q1) <= nearest_int(p2, q2),
{
    let r1 = nearest_int(p1, q1);
    let r2 = nearest_int(p2, q2);
    if r1 > r2 {
        lemma_nearest_int_bounds(p1, q1);
        lemma_nearest_int_bounds(p2, q2);
        // r1 - 1/2 <= p1/q1 <= p2/q2 <= r2 + 1/2 <= r1 - 1/2
        assert(2 * (p1 * q2) >= (2 * r1 - 1) * (q1 * q2)) by (nonlinear_arith)
            requires
                2 * (r1 * q1) <= 2 * p1 + q1,
                q2 > 0,
        ;
        assert(2 * (p2 * q1) <= (2 * r2 + 1) * (q1 * q2)) by (nonlinear_arith)
            requires
                2 * p2 <= 2 * (r2 * q2) + q2,
                q1 > 0,
        ;
        assert(q1 * q2 > 0) by (nonlinear_arith)
            requires
                q1 > 0,
                q2 > 0,
        ;
        assert(r1 == r2 + 1) by (nonlinear_arith)
            requires
                (2 * r1 - 1) * (q1 * q2) <= (2 * r2 + 1) * (q1 * q2),
                q1 * q2 > 0,
                r1 > r2,
        ;
        // Equality throughout: both are ties, and both results are even.
        assert((2 * r1 - 1) * (q1 * q2) == (2 * r2 + 1) * (q1 * q2));
        assert(2 * (r1 * q1) == 2 * p1 + q1) by (nonlinear_arith)
            requires
                2 * (r1 * q1) <= 2 * p1 + q1,
                2 * (p1 * q2) == (2 * r1 - 1) * (q1 * q2),
                q2 > 0,
        ;
        assert(2 * p2 == 2 * (r2 * q2) + q2) by (nonlinear_arith)
            requires
                2 * p2 <= 2 * (r2 * q2) + q2,
                2 * (p2 * q1) == (2 * r2 + 1) * (q1 * q2),
                q1 > 0,
        ;
    }
}

/// An integer is its own nearest integer.
proof fn lemma_nearest_int_exact(n: nat, q: nat)
    requires
        q > 0,
    ensures
        nearest_int(n * q, q) == n,
{
    lemma_nearest_int_bounds(n * q, q);
    let r = nearest_int(n * q, q);
    assert(r == n) by (nonlinear_arith)
        requires
            2 * (r * q) <= 2 * (n * q) + q,
            2 * (n * q) <= 2 * (r * q) + q,
            q > 0,
    ;
}

/// Below 2 to the 53 the rounded quotient does not pass it.
proof fn lemma_nearest_int_below(p: nat, q: nat)
    requires
        q > 0,
        p < q * TWO_53,
    ensures
        nearest_int(p, q) <= TWO_53,
{
    assert(p * 1 <= (TWO_53 as nat) * q) by (nonlinear_arith)
        requires
            p < q * TWO_53,
    ;
    lemma_nearest_int_monotone(p, q, TWO_53 as nat, 1);
    lemma_nearest_int_exact(TWO_53 as nat, 1);
}

/// A quotient of at least 2 to the 52 stays there.
proof fn lemma_round53_lower(p: nat, q: nat)
    requires
        q > 0,
        p >= q * TWO_52,
    ensures
        round53(p, q) >= TWO_52,
    decreases p - q,
{
    if p < q * TWO_53 {
        assert((TWO_52 as nat) * q <= p * 1) by (nonlinear_arith)
            requires
                p >= q * TWO_52,
        ;
        lemma_nearest_int_monotone(TWO_52 as nat, 1, p, q);
        lemma_nearest_int_exact(TWO_52 as nat, 1);
    } else {
        lemma_round53_lower(p, 2 * q);
    }
}

/// Rounding to 53 bits keeps the order of the quotients.
pub proof fn lemma_round53_monotone(p1: nat, q1: nat, p2: nat, q2: nat)
    requires
        q1 > 0,
        q2 > 0,
        p1 * q2 <= p2 * q1,
    ensures
        round53(p1, q1) <= round53(p2, q2),
    decreases p2 - q2,
{
    if p2 < q2 * TWO_53 {
        assert(p1 < q1 * TWO_53) by (nonlinear_arith)
            requires
                p1 * q2 <= p2 * q1,
                p2 < q2 * TWO_53,
                q1 > 0,
                q2 > 0,
        ;
        lemma_nearest_int_monotone(p1, q1, p2, q2);
    } else if p1 < q1 * TWO_53 {
        lemma_nearest_int_below(p1, q1);
        lemma_round53_lower(p2, 2 * q2);
    } else {
        assert(p1 * (2 * q2) <= p2 * (2 * q1)) by (nonlinear_arith)
            requires
                p1 * q2 <= p2 * q1,
        ;
        lemma_round53_monotone(p1, 2 * q1, p2, 2 * q2);
    }
}

/// The result depends on the quotient alone, not on how it is written.
pub proof fn lemma_round53_same_quotient(p1: nat, q1: nat, p2: nat, q2: nat)
    requires
        q1 > 0,
        q2 > 0,
        p1 * q2 == p2 * q1,
    ensures
        round53(p1, q1) == round53(p2, q2),
{
    lemma_round53_monotone(p1, q1, p2, q2);
    lemma_round53_monotone(p2, q2, p1, q1);
}

/// How far rounding moves a quotient: by at most half a unit below 2 to the 53,
/// and above it by at most that part of it.
pub proof fn lemma_round53_error(p: nat, q: nat)
    requires
        q > 0,
    ensures
        p < q * TWO_53 ==> -q <= 2 * (round53(p, q) * q - p) <= q,
        p >= q * TWO_53 ==> -p <= TWO_53 * (round53(p, q) * q - p) <= p,
    decreases p - q,
{
    if p < q * TWO_53 {
        lemma_nearest_int_bounds(p, q);
    } else {
        lemma_round53_error(p, 2 * q);
        let r = round53(p, 2 * q);
        assert((2 * r) * q == r * (2 * q)) by (nonlinear_arith);
    }
}

/// Rounding an integer moves it by at most its 2 to the 53rd part.
pub proof fn lemma_round53_relative(p: nat)
    ensures
        -p <= TWO_53 * (round53(p, 1) - p) <= p,
{
    lemma_round53_error(p, 1);
}

/// What has at most 53 significant bits is not changed by rounding.
pub proof fn lemma_round53_exact(m: nat, k: nat)
    requires
        m <= TWO_53,
    ensures
        round53(m * pow2(k), 1) == m * pow2(k),
    decreases k,
{
    let n = m * pow2(k);
    if n < TWO_53 {
        lemma_nearest_int_exact(n, 1);
    } else if k == 0 {
        assert(pow2(0) == 1) by {
            lemma2_to64();
        }
        assert(n == TWO_53);
        lemma_nearest_int_exact(TWO_52 as nat, 2);
        assert(round53(n, 2) == TWO_52);
    } else {
        let h = m * pow2((k - 1) as nat);
        lemma_pow2_unfold(k);
        assert(n == 2 * h) by (nonlinear_arith)
            requires
                n == m * pow2(k),
                h == m * pow2((k - 1) as nat),
                pow2(k) == 2 * pow2((k - 1) as nat),
        ;
        lemma_round53_exact(m, (k - 1) as nat);
        lemma_round53_same_quotient(n, 2, h, 1);
    }
}

/// A perturbation far below the last of the 53 bits of `m * 2^d` is rounded away.
pub proof fn lemma_round53_absorbs(m: nat, d: nat, j: nat, p: nat)
    requires
        TWO_52 <= m < TWO_53,
        d >= 2,
        j <= d,
        m * pow2(d) - pow2((d - 2) as nat) < p < m * pow2(d) + pow2((d - 2) as nat),
        j == d ==> p >= pow2(d) * TWO_52,
    ensures
        round53(p, pow2(j)) * pow2(j) == m * pow2(d),
    decreases d - j,
{
    lemma_pow2_pos(j);
    lemma_pow2_unfold(d);
    lemma_pow2_unfold((d - 1) as nat);
    let u = pow2((d - 2) as nat);
    lemma_pow2_pos((d - 2) as nat);
    assert(pow2(d) == 4 * u && pow2((d - 1) as nat) == 2 * u);
    let top = m * pow2(d);
    assert(top == 4 * (m * u)) by (nonlinear_arith)
        requires
            top == m * (4 * u),
    ;
    assert(4 * (m * u) + 4 * u <= (4 * u) * TWO_53) by (nonlinear_arith)
        requires
            m < TWO_53,
    ;
    assert(4 * (m * u) >= (4 * u) * TWO_52) by (nonlinear_arith)
        requires
            m >= TWO_52,
    ;
    if j == d {
        assert(p < pow2(d) * TWO_53);
        lemma_nearest_int_bounds(p, pow2(d));
        let r = nearest_int(p, pow2(d));
        assert(r == m) by (nonlinear_arith)
            requires
                2 * (r * (4 * u)) <= 2 * p + 4 * u,
                2 * p <= 2 * (r * (4 * u)) + 4 * u,
                4 * (m * u) - u < p < 4 * (m * u) + u,
        ;
    } else if j == d - 1 && p < pow2(j) * TWO_53 {
        lemma_nearest_int_bounds(p, pow2(j));
        let r = nearest_int(p, pow2(j));
        assert(r == 2 * m) by (nonlinear_arith)
            requires
                2 * (r * (2 * u)) <= 2 * p + 2 * u,
                2 * p <= 2 * (r * (2 * u)) + 2 * u,
                4 * (m * u) - u < p < 4 * (m * u) + u,
        ;
        assert((2 * m) * (2 * u) == 4 * (m * u)) by (nonlinear_arith);
    } else {
        lemma_pow2_unfold(j + 1);
        if j < d - 1 {
            lemma_pow2_adds(j, (d - 2 - j) as nat);
            lemma_pow2_pos((d - 2 - j) as nat);
            let w = pow2(j);
            assert(w <= u) by (nonlinear_arith)
                requires
                    w * pow2((d - 2 - j) as nat) == u,
                    pow2((d - 2 - j) as nat) >= 1,
            ;
            assert(w * TWO_53 <= u * TWO_53) by (nonlinear_arith)
                requires
                    w <= u,
            ;
        }
        assert(p >= pow2(j) * TWO_53);
        if j + 1 == d {
            assert(p >= pow2(d) * TWO_52);
        }
        lemma_round53_absorbs(m, d, j + 1, p);
        let r = round53(p, pow2(j + 1));
        assert((2 * r) * pow2(j) == r * (2 * pow2(j))) by (nonlinear_arith);
    }
}

/// Numerator of `(num / den) * 2^exp` written without a negative power.
pub open spec fn scaled_num(num: nat, exp: int) -> nat {
    if exp >= 0 {
        num * pow2(exp as nat)
    } else {
        num
    }
}

/// Denominator of `(num / den) * 2^exp` written without a negative power.
pub open spec fn scaled_den(den: nat, exp: int) -> nat {
    if exp >= 0 {
        den
    } else {
        den * pow2((-exp) as nat)
    }
}

/// `(num / den) * 2^exp` rounded to 53 bits.
pub open spec fn round_scaled_spec(num: nat, den: nat, exp: int) -> nat {
    round53(scaled_num(num, exp), scaled_den(den, exp))
}

proof fn lemma_scaled_den_pos(den: nat, exp: int)
    requires
        den > 0,
    ensures
        scaled_den(den, exp) >= den,
{
    if exp < 0 {
        lemma_pow2_pos((-exp) as nat);
        assert(den * pow2((-exp) as nat) >= den) by (nonlinear_arith)
            requires
                pow2((-exp) as nat) >= 1,
        ;
    }
}

/// Doubling the numerator takes one off the exponent.
proof fn lemma_scale_num(num: nat, den: nat, exp: int)
    requires
        exp > 0,
    ensures
        round_scaled_spec(2 * num, den, exp - 1) == round_scaled_spec(num, den, exp),
{
    lemma_pow2_unfold(exp as nat);
    let h = pow2((exp - 1) as nat);
    assert((2 * num) * h == num * (2 * h)) by (nonlinear_arith);
}

/// Doubling the denominator adds one to a negative exponent.
proof fn lemma_scale_den(num: nat, den: nat, exp: int)
    requires
        exp < 0,
    ensures
        round_scaled_spec(num, 2 * den, exp + 1) == round_scaled_spec(num, den, exp),
{
    lemma_pow2_unfold((-exp) as nat);
    let h = pow2((-exp - 1) as nat);
    assert((2 * den) * h == den * (2 * h)) by (nonlinear_arith);
    if exp == -1 {
        lemma2_to64();
        assert(scaled_den(2 * den, 0) == 2 * den);
        assert(scaled_den(den, -1) == den * 2);
        assert(scaled_num(num, 0) == num * 1);
    }
}

/// Comparing the quotient by 2 to the 53 compares with the multiple.
proof fn lemma_quotient_test(num: u128, den: u128)
    ensures
        num / (TWO_53 as u128) >= den <==> num >= den * TWO_53,
{
    assert(num as int / 9007199254740992 >= den as int <==> num >= den * 9007199254740992);
}

/// A quotient with 54 or more bits is halved, rounded and doubled.
proof fn lemma_scale_halve(num: nat, den: nat, exp: int)
    requires
        den > 0,
        exp > 0,
        num >= den * TWO_53,
    ensures
        round_scaled_spec(num, den, exp) == 2 * round_scaled_spec(num, den, exp - 1),
{
    lemma_pow2_unfold(exp as nat);
    let h = pow2((exp - 1) as nat);
    lemma_pow2_pos((exp - 1) as nat);
    let p = num * pow2(exp as nat);
    assert(p >= den * TWO_53) by (nonlinear_arith)
        requires
            p == num * (2 * h),
            num >= den * TWO_53,
            h >= 1,
    ;
    assert(p * den == (num * h) * (2 * den)) by (nonlinear_arith)
        requires
            p == num * (2 * h),
    ;
    lemma_round53_same_quotient(p, 2 * den, num * h, den);
}

/// Rounds `(num / den) * 2^exp` to 53 bits. The result is `r.0 * 2^r.1`, with
/// the exponent as small as 53 bits allow.
pub fn round_scaled(num: u128, den: u128, exp: i32) -> (r: (u64, u32))
    requires
        0 < den <= TWO_53,
        num < 0x2000_0000_0000_0000_0000_0000_0000_0000u128,
        -4000 <= exp <= 4000,
    ensures
        r.0 < TWO_53,
        r.1 > 0 ==> r.0 >= TWO_52,
        r.1 <= 4200,
        r.0 * pow2(r.1 as nat) == round_scaled_spec(num as nat, den as nat, exp as int),
{
    let ghost want = round_scaled_spec(num as nat, den as nat, exp as int);
    let mut n: u128 = num;
    let mut d: u128 = den;
    let mut e: i32 = exp;
    let mut k: u32 = 0;
    proof {
        lemma2_to64();
    }
    while e > 0
        invariant
            0 < d <= TWO_53,
            n < 0x2000_0000_0000_0000_0000_0000_0000_0000u128,
            -4000 <= e <= 4000,
            e >= 0 ==> k + e <= 4000,
            e < 0 ==> k == 0,
            k > 0 ==> n >= d * TWO_53,
            want == pow2(k as nat) * round_scaled_spec(n as nat, d as nat, e as int),
        decreases e,
    {
        proof {
            lemma_quotient_test(n, d);
        }
        if n / (TWO_53 as u128) < d {
            proof {
                lemma_scale_num(n as nat, d as nat, e as int);
            }
            n = n * 2;
        } else {
            proof {
                lemma_scale_halve(n as nat, d as nat, e as int);
                lemma_pow2_unfold((k + 1) as nat);
                let rest = round_scaled_spec(n as nat, d as nat, e - 1);
                assert(pow2(k as nat) * (2 * rest) == (2 * pow2(k as nat)) * rest)
                    by (nonlinear_arith);
            }
            k = k + 1;
        }
        e = e - 1;
    }
    while e < 0
        invariant
            0 < d < 0x8000_0000_0000_0000_0000_0000_0000_0000u128,
            n < 0x2000_0000_0000_0000_0000_0000_0000_0000u128,
            -4000 <= e <= 0,
            k <= 4000,
            e < 0 ==> k == 0,
            k > 0 ==> n >= d * TWO_52,
            want == round_scaled_spec(num as nat, den as nat, exp as int),
            want == pow2(k as nat) * round_scaled_spec(n as nat, d as nat, e as int),
        decreases -e,
    {
        if d > 2 * n {
            proof {
                lemma_scaled_den_pos(d as nat, e as int);
                let q = scaled_den(d as nat, e as int);
                assert(n < q * TWO_53) by (nonlinear_arith)
                    requires
                        n < q,
                ;
                lemma_basic_div(n as int, q as int);
                lemma_small_mod(n as nat, q);
                lemma2_to64();
                assert(nearest_int(n as nat, q) == 0);
                assert(round53(n as nat, q) == 0);
                assert(pow2(0) * 0 == 0);
            }
            return (0, 0);
        }
        proof {
            lemma_scale_den(n as nat, d as nat, e as int);
        }
        d = d * 2;
        e = e + 1;
        proof {
            lemma2_to64();
        }
    }
    proof {
        lemma2_to64();
        assert(scaled_num(n as nat, 0) == n * 1);
        assert(want == pow2(k as nat) * round53(n as nat, d as nat));
    }
    let ghost mut steps: nat = 0;
    while n / (TWO_53 as u128) >= d
        invariant
            0 < d < 0x8000_0000_0000_0000_0000_0000_0000_0000u128,
            n < 0x2000_0000_0000_0000_0000_0000_0000_0000u128,
            k <= 4000 + steps,
            pow2(steps) <= d,
            steps <= 125,
            k > 0 ==> n >= d * TWO_52,
            want == pow2(k as nat) * round53(n as nat, d as nat),
        decreases n - d,
    {
        proof {
            lemma_quotient_test(n, d);
            lemma_pow2_unfold((k + 1) as nat);
            lemma_pow2_unfold(steps + 1);
            let rest = round53(n as nat, (2 * d) as nat);
            assert(pow2(k as nat) * (2 * rest) == (2 * pow2(k as nat)) * rest)
                by (nonlinear_arith);
            if steps >= 124 {
                lemma_pow2_adds(64, 60);
                lemma2_to64();
                lemma2_to64_rest();
                if steps == 125 {
                    lemma_pow2_unfold(125);
                }
            }
            steps = steps + 1;
        }
        d = d * 2;
        k = k + 1;
    }
    let floor: u128 = n / d;
    let rest: u128 = n % d;
    proof {
        lemma_quotient_test(n, d);
        lemma_nearest_int_below(n as nat, d as nat);
        if k > 0 {
            lemma_round53_lower(n as nat, d as nat);
        }
        lemma_fundamental_div_mod(n as int, d as int);
        assert(floor < TWO_53) by (nonlinear_arith)
            requires
                n == d * floor + rest,
                rest >= 0,
                n < d * TWO_53,
        ;
    }
    let up: bool = if rest < d - rest {
        false
    } else if rest > d - rest {
        true
    } else {
        floor % 2 != 0
    };
    let mant: u64 = if up {
        floor as u64 + 1
    } else {
        floor as u64
    };
    proof {
        assert(mant == nearest_int(n as nat, d as nat));
        assert(mant * pow2(k as nat) == pow2(k as nat) * mant) by (nonlinear_arith);
    }
    if mant == TWO_53 {
        proof {
            lemma_pow2_unfold((k + 1) as nat);
            let h = pow2(k as nat);
            assert(TWO_52 * (2 * h) == TWO_53 * h) by (nonlinear_arith);
        }
        return (TWO_52, k + 1);
    }
    (mant, k)
}

} // verus!
