//! Double-precision binary numbers, computed with integers.
//!
//! A [`Binary64`] is the 64-bit pattern of a double-precision number. Every
//! finite one is a whole multiple of 2 to the -1074, so a finite value is
//! modelled as a sign and a natural number of those units, and each operation
//! is stated as the exact result rounded to 53 bits, ties to even.

use crate::rounding;
use crate::rounding::{round_scaled, TWO_52, TWO_53};
use vstd::arithmetic::power2::*;
use vstd::prelude::*;

verus! {

/// Bit pattern of plus infinity: the exponent field all ones, the fraction zero.
pub const INFINITE_BITS: u64 = 0x7ff0_0000_0000_0000;

/// Bit pattern of the sign bit alone.
pub const SIGN_BIT: u64 = 0x8000_0000_0000_0000;

/// Bit pattern of the quiet not-a-number that the operations return.
pub const NAN_BITS: u64 = 0x7ff8_0000_0000_0000;

/// What a double-precision bit pattern stands for.
pub enum Number {
    /// The result of an operation without a meaningful value.
    NotANumber,
    /// An infinity.
    Infinite { negative: bool },
    /// A sign and a magnitude in units of 2 to the -1074.
    Finite { negative: bool, units: nat },
}

/// How many units of 2 to the -1074 make one.
pub open spec fn one_unit() -> nat {
    pow2(1074)
}

/// The least magnitude that is too large for a finite number.
pub open spec fn overflow_units() -> nat {
    pow2(2098)
}

/// Magnitude of the pattern `a`, the sign bit taken off: below 2 to the 52 the
/// units themselves, above it 53 bits shifted by the exponent field.
pub open spec fn magnitude_units(a: nat) -> nat {
    if a < TWO_52 {
        a
    } else {
        (TWO_52 + a % (TWO_52 as nat)) as nat * pow2((a / (TWO_52 as nat) - 1) as nat)
    }
}

/// What the bit pattern `bits` stands for.
pub open spec fn number_of(bits: u64) -> Number {
    let negative = bits >= SIGN_BIT;
    let a = (if negative {
        bits - SIGN_BIT
    } else {
        bits as int
    }) as nat;
    if a > INFINITE_BITS {
        Number::NotANumber
    } else if a == INFINITE_BITS {
        Number::Infinite { negative }
    } else {
        Number::Finite { negative, units: magnitude_units(a) }
    }
}

/// The exact quotient `p / q` (in units), with a sign, rounded to a number.
pub open spec fn rounded(negative: bool, p: nat, q: nat) -> Number {
    let r = rounding::round53(p, q);
    if r >= overflow_units() {
        Number::Infinite { negative }
    } else {
        Number::Finite { negative, units: r }
    }
}

/// The natural number `n` as a number.
pub open spec fn whole(n: nat) -> Number {
    rounded(false, n * one_unit(), 1)
}

impl Number {
    /// Whether this is neither an infinity nor not-a-number.
    pub open spec fn is_finite(self) -> bool {
        self is Finite
    }

    /// The signed units of a finite number.
    pub open spec fn signed(self) -> int {
        match self {
            Number::Finite { negative, units } => if negative {
                -(units as int)
            } else {
                units as int
            },
            _ => 0,
        }
    }

    /// The number with the other sign.
    pub open spec fn negated(self) -> Number {
        match self {
            Number::NotANumber => Number::NotANumber,
            Number::Infinite { negative } => Number::Infinite { negative: !negative },
            Number::Finite { negative, units } => Number::Finite { negative: !negative, units },
        }
    }

    /// The number without its sign.
    pub open spec fn magnitude(self) -> Number {
        match self {
            Number::NotANumber => Number::NotANumber,
            Number::Infinite { negative } => Number::Infinite { negative: false },
            Number::Finite { negative, units } => Number::Finite { negative: false, units },
        }
    }

    /// `self < other`; false where either is not a number.
    pub open spec fn below(self, other: Number) -> bool {
        match (self, other) {
            (Number::Finite { .. }, Number::Finite { .. }) => self.signed() < other.signed(),
            (Number::Finite { .. }, Number::Infinite { negative }) => !negative,
            (Number::Infinite { negative }, Number::Finite { .. }) => negative,
            (Number::Infinite { negative: n1 }, Number::Infinite { negative: n2 }) => n1 && !n2,
            _ => false,
        }
    }

    /// `self == other` as numbers: the two zeros are equal, and what is not a
    /// number equals nothing.
    pub open spec fn same(self, other: Number) -> bool {
        match (self, other) {
            (Number::Finite { .. }, Number::Finite { .. }) => self.signed() == other.signed(),
            (Number::Infinite { negative: n1 }, Number::Infinite { negative: n2 }) => n1 == n2,
            _ => false,
        }
    }

    /// `self <= other`; false where either is not a number.
    pub open spec fn at_most(self, other: Number) -> bool {
        self.below(other) || self.same(other)
    }

    /// The sum. An exact zero is negative only if both operands are.
    pub open spec fn sum(self, other: Number) -> Number {
        match (self, other) {
            (
                Number::Finite { negative: n1, units: u1 },
                Number::Finite { negative: n2, units: u2 },
            ) => {
                let exact = self.signed() + other.signed();
                if exact == 0 {
                    Number::Finite { negative: n1 && n2, units: 0 }
                } else if exact < 0 {
                    rounded(true, (-exact) as nat, 1)
                } else {
                    rounded(false, exact as nat, 1)
                }
            },
            (Number::Infinite { negative: n1 }, Number::Infinite { negative: n2 }) => if n1 == n2 {
                Number::Infinite { negative: n1 }
            } else {
                Number::NotANumber
            },
            (Number::Infinite { negative }, Number::Finite { .. }) => self,
            (Number::Finite { .. }, Number::Infinite { negative }) => other,
            _ => Number::NotANumber,
        }
    }

    /// The difference.
    pub open spec fn difference(self, other: Number) -> Number {
        self.sum(other.negated())
    }

    /// The product.
    pub open spec fn product(self, other: Number) -> Number {
        match (self, other) {
            (
                Number::Finite { negative: n1, units: u1 },
                Number::Finite { negative: n2, units: u2 },
            ) => rounded(n1 != n2, u1 * u2, one_unit()),
            (Number::Infinite { negative: n1 }, Number::Infinite { negative: n2 }) => {
                Number::Infinite { negative: n1 != n2 }
            },
            (
                Number::Infinite { negative: n1 },
                Number::Finite { negative: n2, units },
            ) => if units == 0 {
                Number::NotANumber
            } else {
                Number::Infinite { negative: n1 != n2 }
            },
            (
                Number::Finite { negative: n1, units },
                Number::Infinite { negative: n2 },
            ) => if units == 0 {
                Number::NotANumber
            } else {
                Number::Infinite { negative: n1 != n2 }
            },
            _ => Number::NotANumber,
        }
    }

    /// The quotient. A nonzero number over zero is an infinity.
    pub open spec fn quotient(self, other: Number) -> Number {
        match (self, other) {
            (
                Number::Finite { negative: n1, units: u1 },
                Number::Finite { negative: n2, units: u2 },
            ) => if u2 != 0 {
                rounded(n1 != n2, u1 * one_unit(), u2)
            } else if u1 != 0 {
                Number::Infinite { negative: n1 != n2 }
            } else {
                Number::NotANumber
            },
            (
                Number::Finite { negative: n1, units },
                Number::Infinite { negative: n2 },
            ) => Number::Finite { negative: n1 != n2, units: 0 },
            (
                Number::Infinite { negative: n1 },
                Number::Finite { negative: n2, units },
            ) => Number::Infinite { negative: n1 != n2 },
            _ => Number::NotANumber,
        }
    }

    /// The nearest whole number, halves away from zero, cut to `0..=255`;
    /// 0 for what is not a number.
    pub open spec fn nearest_byte(self) -> u8 {
        match self {
            Number::NotANumber => 0,
            Number::Infinite { negative } => if negative {
                0
            } else {
                255
            },
            Number::Finite { negative, units } => {
                let n = (2 * units + one_unit()) / (2 * one_unit());
                if negative {
                    0
                } else if n > 255 {
                    255
                } else {
                    n as u8
                }
            },
        }
    }
}

/// A natural number below 2 to the 53 is exact.
pub proof fn lemma_whole_exact(n: nat)
    requires
        n < TWO_53,
    ensures
        whole(n) == (Number::Finite { negative: false, units: n * one_unit() }),
        n * one_unit() < overflow_units(),
{
    rounding::lemma_round53_exact(n, 1074);
    lemma_pow2_adds(53, 1074);
    lemma_pow2_adds(1127, 971);
    lemma_pow2_pos(971);
    lemma_pow2_pos(1074);
    lemma2_to64_rest();
    let one = one_unit();
    assert(n * one < (pow2(53) * one) * pow2(971)) by (nonlinear_arith)
        requires
            n < pow2(53),
            one >= 1,
            pow2(971) >= 1,
    ;
}

/// Natural numbers below 2 to the 53 compare as they do outside floating
/// point.
pub proof fn law_naturals_keep_their_order(m: nat, n: nat)
    requires
        m < TWO_53,
        n < TWO_53,
    ensures
        whole(m).below(whole(n)) <==> m < n,
        whole(m).at_most(whole(n)) <==> m <= n,
        whole(m).same(whole(n)) <==> m == n,
{
    lemma_whole_exact(m);
    lemma_whole_exact(n);
    lemma_pow2_pos(1074);
    let one = one_unit();
    assert(m < n ==> m * one < n * one) by (nonlinear_arith)
        requires
            one > 0,
    ;
    assert(n < m ==> n * one < m * one) by (nonlinear_arith)
        requires
            one > 0,
    ;
}

/// A double-precision number, by its bit pattern.
#[derive(Clone, Copy, Debug)]
pub struct Binary64 {
    pub bits: u64,
}

impl View for Binary64 {
    type V = Number;

    open spec fn view(&self) -> Number {
        number_of(self.bits)
    }
}

proof fn lemma_magnitude_monotone(a: nat, b: nat)
    requires
        a < b <= INFINITE_BITS,
    ensures
        magnitude_units(a) < magnitude_units(b),
{
    let t = TWO_52 as nat;
    if b < TWO_52 {
    } else {
        let eb = (b / t - 1) as nat;
        let mb = t + b % t;
        lemma_pow2_pos(eb);
        if a < TWO_52 {
            assert(mb * pow2(eb) >= mb) by (nonlinear_arith)
                requires
                    pow2(eb) >= 1,
            ;
        } else {
            let ea = (a / t - 1) as nat;
            let ma = t + a % t;
            lemma_pow2_pos(ea);
            if ea == eb {
                assert(ma < mb);
                assert(ma * pow2(ea) < mb * pow2(ea)) by (nonlinear_arith)
                    requires
                        ma < mb,
                        pow2(ea) >= 1,
                ;
            } else {
                assert(ea < eb);
                lemma_pow2_adds(ea + 1, (eb - ea - 1) as nat);
                lemma_pow2_pos((eb - ea - 1) as nat);
                lemma_pow2_unfold(ea + 1);
                let g = pow2((eb - ea - 1) as nat);
                let h = pow2(ea);
                assert(ma < 2 * t);
                assert(ma * h < mb * pow2(eb)) by (nonlinear_arith)
                    requires
                        ma < 2 * t,
                        mb >= t,
                        pow2(eb) == (2 * h) * g,
                        g >= 1,
                        h >= 1,
                ;
            }
        }
    }
}

proof fn lemma_infinite_magnitude()
    ensures
        magnitude_units(INFINITE_BITS as nat) == overflow_units(),
{
    assert(INFINITE_BITS as nat / TWO_52 as nat == 2047);
    assert(INFINITE_BITS as nat % TWO_52 as nat == 0);
    lemma_pow2_adds(52, 2046);
    lemma2_to64_rest();
}

/// Every finite magnitude is below the overflow threshold.
pub proof fn lemma_finite_below_overflow(x: Binary64)
    requires
        x@ is Finite,
    ensures
        x@->units < overflow_units(),
{
    let a = (x.bits % SIGN_BIT) as nat;
    lemma_magnitude_monotone(a, INFINITE_BITS as nat);
    lemma_infinite_magnitude();
}

/// The signed pattern: it orders numbers as their values do.
spec fn order_key(bits: u64) -> int {
    if bits >= SIGN_BIT {
        -(bits - SIGN_BIT)
    } else {
        bits as int
    }
}

proof fn lemma_order_key(x: Binary64, y: Binary64)
    requires
        x@ !is NotANumber,
        y@ !is NotANumber,
    ensures
        x@.below(y@) <==> order_key(x.bits) < order_key(y.bits),
        x@.same(y@) <==> order_key(x.bits) == order_key(y.bits),
{
    let a = (x.bits % SIGN_BIT) as nat;
    let b = (y.bits % SIGN_BIT) as nat;
    if a < b {
        lemma_magnitude_monotone(a, b);
    }
    if b < a {
        lemma_magnitude_monotone(b, a);
    }
    if 0 < a {
        lemma_magnitude_monotone(0, a);
    }
    if 0 < b {
        lemma_magnitude_monotone(0, b);
    }
}

impl Binary64 {
    /// The number with the given bit pattern.
    pub fn from_bits(bits: u64) -> (x: Binary64)
        ensures
            x.bits == bits,
            x@ == number_of(bits),
    {
        Binary64 { bits }
    }

    /// The bit pattern.
    pub fn to_bits(self) -> (bits: u64)
        ensures
            bits == self.bits,
            number_of(bits) == self@,
    {
        self.bits
    }

    /// Not-a-number.
    pub fn nan() -> (x: Binary64)
        ensures
            x@ is NotANumber,
    {
        Binary64 { bits: NAN_BITS }
    }

    fn infinity(negative: bool) -> (x: Binary64)
        ensures
            x@ == (Number::Infinite { negative }),
    {
        if negative {
            Binary64 { bits: SIGN_BIT + INFINITE_BITS }
        } else {
            Binary64 { bits: INFINITE_BITS }
        }
    }

    fn zero(negative: bool) -> (x: Binary64)
        ensures
            x@ == (Number::Finite { negative, units: 0 }),
    {
        if negative {
            Binary64 { bits: SIGN_BIT }
        } else {
            Binary64 { bits: 0 }
        }
    }

    fn is_negative(self) -> (b: bool)
        ensures
            b == (self.bits >= SIGN_BIT),
    {
        self.bits >= SIGN_BIT
    }

    /// Whether this is not a number.
    pub fn is_nan(self) -> (b: bool)
        ensures
            b == (self@ is NotANumber),
    {
        self.bits % SIGN_BIT > INFINITE_BITS
    }

    fn is_infinite(self) -> (b: bool)
        ensures
            b == (self@ is Infinite),
    {
        self.bits % SIGN_BIT == INFINITE_BITS
    }

    /// Whether this is neither an infinity nor not-a-number.
    pub fn is_finite(self) -> (b: bool)
        ensures
            b == self@.is_finite(),
    {
        self.bits % SIGN_BIT < INFINITE_BITS
    }

    /// The significant bits and the exponent of a finite number.
    fn parts(self) -> (r: (u64, u32))
        requires
            self@ is Finite,
        ensures
            r.0 < TWO_53,
            r.1 <= 2045,
            r.1 > 0 ==> r.0 >= TWO_52,
            self@->units == r.0 * pow2(r.1 as nat),
    {
        let a: u64 = self.bits % SIGN_BIT;
        let field: u64 = a / TWO_52;
        let fraction: u64 = a % TWO_52;
        if field == 0 {
            proof {
                lemma2_to64();
            }
            (fraction, 0)
        } else {
            proof {
                assert(magnitude_units(a as nat) == (TWO_52 + fraction) as nat * pow2(
                    (field - 1) as nat,
                ));
            }
            (TWO_52 + fraction, (field - 1) as u32)
        }
    }

    /// The number with the given sign, significant bits and exponent.
    fn pack(negative: bool, mant: u64, exp: u32) -> (x: Binary64)
        requires
            mant < TWO_53,
            exp > 0 ==> mant >= TWO_52,
        ensures
            x@ == if mant * pow2(exp as nat) >= overflow_units() {
                Number::Infinite { negative }
            } else {
                Number::Finite { negative, units: (mant * pow2(exp as nat)) as nat }
            },
    {
        if exp >= 2046 {
            proof {
                lemma_pow2_adds(2046, (exp - 2046) as nat);
                lemma_pow2_pos((exp - 2046) as nat);
                lemma_pow2_adds(52, 2046);
                lemma2_to64_rest();
                let g = pow2((exp - 2046) as nat);
                let h = pow2(2046);
                assert(mant * (h * g) >= TWO_52 * h) by (nonlinear_arith)
                    requires
                        mant >= TWO_52,
                        g >= 1,
                ;
            }
            return Self::infinity(negative);
        }
        proof {
            lemma_pow2_adds(53, 2045);
            lemma_pow2_adds(exp as nat, (2045 - exp) as nat);
            lemma_pow2_pos((2045 - exp) as nat);
            lemma_pow2_pos(exp as nat);
            lemma2_to64_rest();
            lemma2_to64();
            let g = pow2((2045 - exp) as nat);
            let h = pow2(exp as nat);
            assert(mant * h < TWO_53 * (h * g)) by (nonlinear_arith)
                requires
                    mant < TWO_53,
                    g >= 1,
                    h >= 1,
            ;
        }
        let a: u64 = if mant < TWO_52 {
            mant
        } else {
            (exp as u64 + 1) * TWO_52 + (mant - TWO_52)
        };
        proof {
            if mant >= TWO_52 {
                assert(a / TWO_52 == exp + 1);
                assert(a % TWO_52 == mant - TWO_52);
            }
        }
        if negative {
            Binary64 { bits: SIGN_BIT + a }
        } else {
            Binary64 { bits: a }
        }
    }

    fn key(self) -> (k: i64)
        ensures
            k == order_key(self.bits),
    {
        if self.bits >= SIGN_BIT {
            -((self.bits - SIGN_BIT) as i64)
        } else {
            self.bits as i64
        }
    }

    /// `self < other`.
    pub fn lt(self, other: Binary64) -> (b: bool)
        ensures
            b == self@.below(other@),
    {
        if self.is_nan() || other.is_nan() {
            return false;
        }
        proof {
            lemma_order_key(self, other);
        }
        self.key() < other.key()
    }

    /// `self <= other`.
    pub fn le(self, other: Binary64) -> (b: bool)
        ensures
            b == self@.at_most(other@),
    {
        if self.is_nan() || other.is_nan() {
            return false;
        }
        proof {
            lemma_order_key(self, other);
        }
        self.key() <= other.key()
    }

    /// The number with the other sign.
    pub fn negated(self) -> (x: Binary64)
        ensures
            x@ == self@.negated(),
    {
        if self.bits >= SIGN_BIT {
            Binary64 { bits: self.bits - SIGN_BIT }
        } else {
            Binary64 { bits: self.bits + SIGN_BIT }
        }
    }

    /// The number without its sign.
    pub fn magnitude(self) -> (x: Binary64)
        ensures
            x@ == self@.magnitude(),
    {
        Binary64 { bits: self.bits % SIGN_BIT }
    }

    /// The larger of the two; the other one where one is not a number.
    pub fn larger(self, other: Binary64) -> (x: Binary64)
        ensures
            x@ == if self@ is NotANumber || self@.below(other@) {
                other@
            } else {
                self@
            },
    {
        if self.is_nan() || self.lt(other) {
            other
        } else {
            self
        }
    }

    /// Sum of `(-1)^n1 * m1 * 2^e1` and `(-1)^n2 * m2 * 2^e2`.
    fn sum_of_parts(n1: bool, m1: u64, e1: u32, n2: bool, m2: u64, e2: u32) -> (x: Binary64)
        requires
            m1 < TWO_53,
            m2 < TWO_53,
            e2 <= e1 <= 2045,
            e1 > 0 ==> m1 >= TWO_52,
        ensures
            x@ == (Number::Finite { negative: n1, units: (m1 * pow2(e1 as nat)) as nat }).sum(
                (Number::Finite { negative: n2, units: (m2 * pow2(e2 as nat)) as nat }),
            ),
    {
        let ghost u1 = (m1 * pow2(e1 as nat)) as nat;
        let ghost u2 = (m2 * pow2(e2 as nat)) as nat;
        if e1 - e2 > 70 {
            proof {
                lemma_far_apart(m1 as nat, e1 as nat, m2 as nat, e2 as nat);
                lemma2_to64();
                let up = u1 + u2;
                let down = (u1 - u2) as nat;
                rounding::lemma_round53_absorbs(m1 as nat, e1 as nat, 0, up);
                rounding::lemma_round53_absorbs(m1 as nat, e1 as nat, 0, down);
                assert(rounding::round53(up, 1) * 1 == u1);
                assert(rounding::round53(down, 1) * 1 == u1);
            }
            return Self::pack(n1, m1, e1);
        }
        let a: u128 = shifted(m1, e1 - e2);
        let b: u128 = m2 as u128;
        let ghost w = pow2(e2 as nat);
        proof {
            lemma_pow2_adds((e1 - e2) as nat, e2 as nat);
            lemma_pow2_pos(e2 as nat);
            assert(u1 == a * w) by (nonlinear_arith)
                requires
                    u1 == m1 * pow2(e1 as nat),
                    pow2(e1 as nat) == pow2((e1 - e2) as nat) * w,
                    a == m1 * pow2((e1 - e2) as nat),
            ;
            assert((a + b) * w == a * w + b * w) by (nonlinear_arith);
            assert((a - b) * w == a * w - b * w) by (nonlinear_arith);
            assert((b - a) * w == b * w - a * w) by (nonlinear_arith);
            assert(a > b ==> (a - b) * w > 0) by (nonlinear_arith)
                requires
                    w > 0,
            ;
            assert(b > a ==> (b - a) * w > 0) by (nonlinear_arith)
                requires
                    w > 0,
            ;
            assert(a + b > 0 ==> (a + b) * w > 0) by (nonlinear_arith)
                requires
                    w > 0,
            ;
        }
        let (negative, size): (bool, u128) = if n1 == n2 {
            (n1, a + b)
        } else if a >= b {
            (n1, a - b)
        } else {
            (n2, b - a)
        };
        if size == 0 {
            return Self::zero(n1 && n2);
        }
        let (mant, k) = round_scaled(size, 1, e2 as i32);
        Self::pack(negative, mant, k)
    }

    /// The sum.
    pub fn plus(self, other: Binary64) -> (x: Binary64)
        ensures
            x@ == self@.sum(other@),
    {
        if self.is_nan() || other.is_nan() {
            return Self::nan();
        }
        if self.is_infinite() {
            return if other.is_infinite() && self.is_negative() != other.is_negative() {
                Self::nan()
            } else {
                self
            };
        }
        if other.is_infinite() {
            return other;
        }
        let (m1, e1) = self.parts();
        let (m2, e2) = other.parts();
        let n1: bool = self.is_negative();
        let n2: bool = other.is_negative();
        if e1 >= e2 {
            Self::sum_of_parts(n1, m1, e1, n2, m2, e2)
        } else {
            Self::sum_of_parts(n2, m2, e2, n1, m1, e1)
        }
    }

    /// The difference.
    pub fn minus(self, other: Binary64) -> (x: Binary64)
        ensures
            x@ == self@.difference(other@),
    {
        self.plus(other.negated())
    }

    /// The nearest whole number, halves away from zero, cut to `0..=255`.
    pub fn nearest_byte(self) -> (n: u8)
        ensures
            n == self@.nearest_byte(),
    {
        if self.is_nan() || self.is_negative() {
            return 0;
        }
        if self.is_infinite() {
            return 255;
        }
        let (m, e) = self.parts();
        if e >= 1074 {
            proof {
                lemma_huge_byte(m as nat, e as nat);
            }
            return 255;
        }
        let s: u32 = 1074 - e;
        if s > 60 {
            proof {
                lemma_tiny_byte(m as nat, e as nat);
            }
            return 0;
        }
        let t: u128 = shifted(1, s);
        proof {
            lemma_byte_quotient(m as nat, e as nat, t as nat);
            lemma_pow2_pos(s as nat);
        }
        let n: u128 = (2 * (m as u128) + t) / (2 * t);
        if n > 255 {
            255
        } else {
            n as u8
        }
    }

    /// The product.
    pub fn times(self, other: Binary64) -> (x: Binary64)
        ensures
            x@ == self@.product(other@),
    {
        if self.is_nan() || other.is_nan() {
            return Self::nan();
        }
        let negative: bool = self.is_negative() != other.is_negative();
        if self.is_infinite() {
            if other.is_infinite() {
                return Self::infinity(negative);
            }
            let (m2, e2) = other.parts();
            proof {
                lemma_parts_zero(m2 as nat, e2 as nat);
            }
            return if m2 == 0 {
                Self::nan()
            } else {
                Self::infinity(negative)
            };
        }
        let (m1, e1) = self.parts();
        if other.is_infinite() {
            proof {
                lemma_parts_zero(m1 as nat, e1 as nat);
            }
            return if m1 == 0 {
                Self::nan()
            } else {
                Self::infinity(negative)
            };
        }
        let (m2, e2) = other.parts();
        proof {
            assert(m1 * m2 <= (TWO_53 - 1) * (TWO_53 - 1)) by (nonlinear_arith)
                requires
                    m1 <= TWO_53 - 1,
                    m2 <= TWO_53 - 1,
            ;
            lemma_product_quotient(m1 as nat, e1 as nat, m2 as nat, e2 as nat);
        }
        let exp: i32 = e1 as i32 + e2 as i32 - 1074;
        let (mant, k) = round_scaled((m1 as u128) * (m2 as u128), 1, exp);
        Self::pack(negative, mant, k)
    }

    /// The quotient.
    pub fn over(self, other: Binary64) -> (x: Binary64)
        ensures
            x@ == self@.quotient(other@),
    {
        if self.is_nan() || other.is_nan() {
            return Self::nan();
        }
        let negative: bool = self.is_negative() != other.is_negative();
        if self.is_infinite() {
            return if other.is_infinite() {
                Self::nan()
            } else {
                Self::infinity(negative)
            };
        }
        if other.is_infinite() {
            return Self::zero(negative);
        }
        let (m1, e1) = self.parts();
        let (m2, e2) = other.parts();
        proof {
            lemma_parts_zero(m1 as nat, e1 as nat);
            lemma_parts_zero(m2 as nat, e2 as nat);
        }
        if m2 == 0 {
            return if m1 == 0 {
                Self::nan()
            } else {
                Self::infinity(negative)
            };
        }
        proof {
            lemma_quotient_quotient(m1 as nat, e1 as nat, m2 as nat, e2 as nat);
        }
        let exp: i32 = e1 as i32 - e2 as i32 + 1074;
        let (mant, k) = round_scaled(m1 as u128, m2 as u128, exp);
        Self::pack(negative, mant, k)
    }

    /// The natural number `n`, rounded where it has more than 53 bits.
    pub fn from_u64(n: u64) -> (x: Binary64)
        ensures
            x@ == whole(n as nat),
    {
        let (mant, k) = round_scaled(n as u128, 1, 1074);
        Self::pack(false, mant, k)
    }

    /// The whole number `n`, rounded where it has more than 53 bits.
    pub fn from_i64(n: i64) -> (x: Binary64)
        ensures
            x@ == if n < 0 {
                whole((-n) as nat).negated()
            } else {
                whole(n as nat)
            },
    {
        if n >= 0 {
            Self::from_u64(n as u64)
        } else {
            let size: u64 = (-(n + 1)) as u64 + 1;
            Self::from_u64(size).negated()
        }
    }

    /// The quotient of two natural numbers.
    pub fn ratio(n: u64, d: u64) -> (x: Binary64)
        ensures
            x@ == whole(n as nat).quotient(whole(d as nat)),
    {
        Self::from_u64(n).over(Self::from_u64(d))
    }
}

/// `m * 2^s`.
fn shifted(m: u64, s: u32) -> (r: u128)
    requires
        m < TWO_53,
        s <= 70,
    ensures
        r == m * pow2(s as nat),
        r < 0x1000_0000_0000_0000_0000_0000_0000_0000u128,
{
    let mut r: u128 = m as u128;
    let mut i: u32 = 0;
    proof {
        lemma2_to64();
        lemma2_to64_rest();
        lemma_pow2_adds(64, 6);
    }
    while i < s
        invariant
            m < TWO_53,
            i <= s <= 70,
            pow2(70) == 0x40_0000_0000_0000_0000,
            r == m * pow2(i as nat),
        decreases s - i,
    {
        proof {
            lemma_pow2_unfold((i + 1) as nat);
            lemma_pow2_adds((i + 1) as nat, (70 - (i + 1)) as nat);
            lemma_pow2_pos((70 - (i + 1)) as nat);
            let h = pow2(i as nat);
            let g = pow2((70 - (i + 1)) as nat);
            assert(m * (2 * h) == 2 * (m * h)) by (nonlinear_arith);
            assert(m * (2 * h) < TWO_53 * 0x40_0000_0000_0000_0000) by (nonlinear_arith)
                requires
                    m < TWO_53,
                    (2 * h) * g == 0x40_0000_0000_0000_0000,
                    g >= 1,
            ;
        }
        r = r * 2;
        i = i + 1;
    }
    proof {
        lemma_pow2_adds(s as nat, (70 - s) as nat);
        lemma_pow2_pos((70 - s) as nat);
        let h = pow2(s as nat);
        let g = pow2((70 - s) as nat);
        assert(m * h < TWO_53 * 0x40_0000_0000_0000_0000) by (nonlinear_arith)
            requires
                m < TWO_53,
                h * g == 0x40_0000_0000_0000_0000,
                g >= 1,
        ;
    }
    r
}

/// Where the exponents differ by more than 70, the smaller operand is far
/// below the last bit of the larger one.
proof fn lemma_far_apart(m1: nat, e1: nat, m2: nat, e2: nat)
    requires
        TWO_52 <= m1 < TWO_53,
        m2 < TWO_53,
        e1 > e2 + 70,
    ensures
        m2 * pow2(e2) < pow2((e1 - 2) as nat),
        m2 * pow2(e2) < m1 * pow2(e1),
{
    let gap = (e1 - 2 - 53 - e2) as nat;
    lemma_pow2_adds(53, e2);
    lemma_pow2_adds(53 + e2, gap);
    lemma_pow2_pos(gap);
    lemma_pow2_pos(e2);
    lemma2_to64_rest();
    let g = pow2(gap);
    let w = pow2(e2);
    assert(m2 * w < (TWO_53 * w) * g) by (nonlinear_arith)
        requires
            m2 < TWO_53,
            g >= 1,
            w >= 1,
    ;
    lemma_pow2_unfold(e1);
    lemma_pow2_unfold((e1 - 1) as nat);
    let u = pow2((e1 - 2) as nat);
    assert(m1 * (4 * u) >= u) by (nonlinear_arith)
        requires
            m1 >= 1,
    ;
}

/// From exponent 1074 on a number with 53 bits rounds to more than a byte.
proof fn lemma_huge_byte(m: nat, e: nat)
    requires
        e >= 1074,
        m >= TWO_52,
    ensures
        (2 * (m * pow2(e)) + one_unit()) / (2 * one_unit()) > 255,
{
    lemma_pow2_adds(1074, (e - 1074) as nat);
    lemma_pow2_pos((e - 1074) as nat);
    lemma_pow2_pos(1074);
    let g = pow2((e - 1074) as nat);
    let one = one_unit();
    let x = 2 * (m * pow2(e)) + one;
    assert(x >= 256 * (2 * one)) by (nonlinear_arith)
        requires
            x == 2 * (m * (one * g)) + one,
            m >= 256,
            g >= 1,
    ;
    vstd::arithmetic::div_mod::lemma_div_is_ordered((256 * (2 * one)) as int, x as int, (2 * one) as int);
    vstd::arithmetic::div_mod::lemma_div_by_multiple(256, (2 * one) as int);
}

/// Far below one a number rounds to zero.
proof fn lemma_tiny_byte(m: nat, e: nat)
    requires
        m < TWO_53,
        e < 1014,
    ensures
        (2 * (m * pow2(e)) + one_unit()) / (2 * one_unit()) == 0,
{
    lemma_pow2_adds(60, e);
    lemma_pow2_adds(60 + e, (1014 - e) as nat);
    lemma_pow2_pos((1014 - e) as nat);
    lemma_pow2_pos(e);
    lemma2_to64_rest();
    let g = pow2((1014 - e) as nat);
    let w = pow2(e);
    let one = one_unit();
    assert(2 * (m * w) < one) by (nonlinear_arith)
        requires
            m < TWO_53,
            one == (0x1000_0000_0000_0000 * w) * g,
            g >= 1,
            w >= 1,
    ;
    vstd::arithmetic::div_mod::lemma_basic_div((2 * (m * w) + one) as int, (2 * one) as int);
}

/// Taking the common power out of the quotient.
proof fn lemma_byte_quotient(m: nat, e: nat, t: nat)
    requires
        e < 1074,
        t == pow2((1074 - e) as nat),
    ensures
        (2 * (m * pow2(e)) + one_unit()) / (2 * one_unit()) == (2 * m + t) / (2 * t),
{
    let w = pow2(e);
    lemma_pow2_adds(e, (1074 - e) as nat);
    lemma_pow2_pos(e);
    lemma_pow2_pos((1074 - e) as nat);
    let one = one_unit();
    let x = 2 * m + t;
    let d = 2 * t;
    vstd::arithmetic::div_mod::lemma_fundamental_div_mod(x as int, d as int);
    let q = x / d;
    let r = x % d;
    assert(2 * (m * w) + one == x * w) by (nonlinear_arith)
        requires
            one == w * t,
            x == 2 * m + t,
    ;
    assert(2 * one == d * w) by (nonlinear_arith)
        requires
            one == w * t,
            d == 2 * t,
    ;
    assert(x * w == q * (d * w) + r * w) by (nonlinear_arith)
        requires
            x == d * q + r,
    ;
    assert(0 <= r * w < d * w) by (nonlinear_arith)
        requires
            0 <= r < d,
            w > 0,
    ;
    vstd::arithmetic::div_mod::lemma_fundamental_div_mod_converse(
        (x * w) as int,
        (d * w) as int,
        q as int,
        (r * w) as int,
    );
}

/// `m * 2^e` is zero only if `m` is.
proof fn lemma_parts_zero(m: nat, e: nat)
    ensures
        m * pow2(e) == 0 <==> m == 0,
{
    lemma_pow2_pos(e);
    assert(m * pow2(e) == 0 <==> m == 0) by (nonlinear_arith)
        requires
            pow2(e) > 0,
    ;
}

/// The product of two finite numbers as one scaled quotient.
proof fn lemma_product_quotient(m1: nat, e1: nat, m2: nat, e2: nat)
    ensures
        rounding::round53((m1 * pow2(e1)) * (m2 * pow2(e2)), one_unit())
            == rounding::round_scaled_spec(m1 * m2, 1, e1 + e2 - 1074),
{
    let p = (m1 * pow2(e1)) * (m2 * pow2(e2));
    let num = m1 * m2;
    let exp = e1 + e2 - 1074;
    lemma_pow2_adds(e1, e2);
    assert(p == num * pow2(e1 + e2)) by (nonlinear_arith)
        requires
            p == (m1 * pow2(e1)) * (m2 * pow2(e2)),
            num == m1 * m2,
            pow2(e1 + e2) == pow2(e1) * pow2(e2),
    ;
    lemma_pow2_pos(1074);
    if exp >= 0 {
        lemma_pow2_adds(exp as nat, 1074);
        assert(num * pow2(e1 + e2) == (num * pow2(exp as nat)) * pow2(1074)) by (nonlinear_arith)
            requires
                pow2(e1 + e2) == pow2(exp as nat) * pow2(1074),
        ;
        rounding::lemma_round53_same_quotient(p, pow2(1074), num * pow2(exp as nat), 1);
    } else {
        let back = (-exp) as nat;
        lemma_pow2_adds(e1 + e2, back);
        lemma_pow2_pos(back);
        assert((num * pow2(e1 + e2)) * pow2(back) == num * pow2(1074)) by (nonlinear_arith)
            requires
                pow2(1074) == pow2(e1 + e2) * pow2(back),
        ;
        assert(1 * pow2(back) == pow2(back));
        rounding::lemma_round53_same_quotient(p, pow2(1074), num, pow2(back));
    }
}

/// The quotient of two finite numbers as one scaled quotient.
proof fn lemma_quotient_quotient(m1: nat, e1: nat, m2: nat, e2: nat)
    requires
        m2 > 0,
    ensures
        rounding::round53((m1 * pow2(e1)) * one_unit(), m2 * pow2(e2))
            == rounding::round_scaled_spec(m1, m2, e1 - e2 + 1074),
{
    let p = (m1 * pow2(e1)) * one_unit();
    let q = m2 * pow2(e2);
    let exp = e1 - e2 + 1074;
    lemma_pow2_pos(e2);
    assert(q > 0) by (nonlinear_arith)
        requires
            q == m2 * pow2(e2),
            m2 > 0,
            pow2(e2) > 0,
    ;
    lemma_pow2_adds(e1, 1074);
    assert(p == m1 * pow2(e1 + 1074)) by (nonlinear_arith)
        requires
            p == (m1 * pow2(e1)) * pow2(1074),
            pow2(e1 + 1074) == pow2(e1) * pow2(1074),
    ;
    if exp >= 0 {
        lemma_pow2_adds(exp as nat, e2);
        assert(p * m2 == (m1 * pow2(exp as nat)) * q) by (nonlinear_arith)
            requires
                p == m1 * (pow2(exp as nat) * pow2(e2)),
                q == m2 * pow2(e2),
        ;
        rounding::lemma_round53_same_quotient(p, q, m1 * pow2(exp as nat), m2);
    } else {
        let back = (-exp) as nat;
        lemma_pow2_adds(e1 + 1074, back);
        lemma_pow2_pos(back);
        assert(m2 * pow2(back) > 0) by (nonlinear_arith)
            requires
                m2 > 0,
                pow2(back) > 0,
        ;
        assert(p * (m2 * pow2(back)) == m1 * q) by (nonlinear_arith)
            requires
                p == m1 * pow2(e1 + 1074),
                q == m2 * (pow2(e1 + 1074) * pow2(back)),
        ;
        rounding::lemma_round53_same_quotient(p, q, m1, m2 * pow2(back));
    }
}

impl PartialEq for Binary64 {
    /// Equality as numbers.
    fn eq(&self, other: &Binary64) -> (b: bool) {
        if self.is_nan() || other.is_nan() {
            return false;
        }
        proof {
            lemma_order_key(*self, *other);
        }
        self.key() == other.key()
    }
}

impl vstd::std_specs::cmp::PartialEqSpecImpl for Binary64 {
    open spec fn obeys_eq_spec() -> bool {
        true
    }

    open spec fn eq_spec(&self, other: &Binary64) -> bool {
        self@.same(other@)
    }
}

} // verus!
