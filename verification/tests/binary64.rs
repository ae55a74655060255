use unifand::binary64::Binary64;

fn n(x: f64) -> Binary64 {
    Binary64::from_bits(x.to_bits())
}

fn v(x: Binary64) -> f64 {
    f64::from_bits(x.to_bits())
}

fn same(a: f64, b: f64) -> bool {
    a.to_bits() == b.to_bits() || (a.is_nan() && b.is_nan())
}

fn edge_values() -> Vec<f64> {
    let mut all = vec![
        0.0,
        1.0,
        0.1,
        0.5,
        1.0 / 3.0,
        2.0,
        17.5,
        100.0,
        254.5,
        255.0,
        255.5,
        256.0,
        1e10,
        1e300,
        1e-300,
        f64::MAX,
        f64::MIN_POSITIVE,
        f64::from_bits(1),
        f64::from_bits(0x000f_ffff_ffff_ffff),
        f64::EPSILON,
        1.0 + f64::EPSILON,
        9007199254740992.0,
        9007199254740993.0,
        f64::INFINITY,
        f64::NAN,
    ];
    let negative: Vec<f64> = all.iter().map(|x| -x).collect();
    all.extend(negative);
    all
}

/// A fixed sequence of patterns: half of them any bits, half near one.
fn patterns(count: usize) -> Vec<f64> {
    let mut seed: u64 = 0x9e37_79b9_7f4a_7c15;
    let mut out = Vec::new();
    for i in 0..count {
        seed = seed.wrapping_mul(6364136223846793005).wrapping_add(1442695040888963407);
        let mixed = seed ^ (seed >> 29);
        let bits = if i % 2 == 0 {
            mixed
        } else {
            (mixed & 0x803f_ffff_ffff_ffff) | 0x3fc0_0000_0000_0000
        };
        out.push(f64::from_bits(bits));
    }
    out
}

fn check_pair(a: f64, b: f64) {
    assert!(same(v(n(a).plus(n(b))), a + b), "{a:e} + {b:e}");
    assert!(same(v(n(a).minus(n(b))), a - b), "{a:e} - {b:e}");
    assert!(same(v(n(a).times(n(b))), a * b), "{a:e} * {b:e}");
    assert!(same(v(n(a).over(n(b))), a / b), "{a:e} / {b:e}");
    assert_eq!(n(a).lt(n(b)), a < b, "{a:e} < {b:e}");
    assert_eq!(n(a).le(n(b)), a <= b, "{a:e} <= {b:e}");
    assert_eq!(n(a) == n(b), a == b, "{a:e} == {b:e}");
    let larger = v(n(a).larger(n(b)));
    assert!(larger == a.max(b) || (larger.is_nan() && a.max(b).is_nan()), "max({a:e}, {b:e})");
}

fn check_one(a: f64) {
    assert_eq!(n(a).is_nan(), a.is_nan());
    assert_eq!(n(a).is_finite(), a.is_finite());
    assert!(same(v(n(a).negated()), -a));
    assert!(same(v(n(a).magnitude()), a.abs()));
    assert_eq!(n(a).nearest_byte(), a.round() as u8, "{a:e}");
}

#[test]
fn arithmetic_is_that_of_doubles_on_edge_values() {
    let values = edge_values();
    for &a in &values {
        check_one(a);
        for &b in &values {
            check_pair(a, b);
        }
    }
}

#[test]
fn arithmetic_is_that_of_doubles_on_many_values() {
    let values = patterns(2000);
    for w in values.windows(3) {
        check_one(w[0]);
        check_pair(w[0], w[1]);
        check_pair(w[0], w[2]);
    }
}

#[test]
fn integers_become_the_nearest_double() {
    for x in [0u64, 1, 2, 255, 1000, 9007199254740993, u64::MAX, u64::MAX - 1024, 1 << 63] {
        assert!(same(v(Binary64::from_u64(x)), x as f64), "{x}");
    }
    for x in [0i64, -1, 1, -3, i64::MIN, i64::MAX, -9007199254740993] {
        assert!(same(v(Binary64::from_i64(x)), x as f64), "{x}");
    }
    assert!(same(v(Binary64::ratio(1, 10)), 0.1));
    assert!(same(v(Binary64::ratio(4, 10)), 0.4));
    assert!(Binary64::nan().is_nan());
}

#[test]
fn rounding_to_bytes_goes_half_up_and_saturates() {
    assert_eq!(n(0.49).nearest_byte(), 0);
    assert_eq!(n(0.5).nearest_byte(), 1);
    assert_eq!(n(127.5).nearest_byte(), 128);
    assert_eq!(n(254.49).nearest_byte(), 254);
    assert_eq!(n(1e9).nearest_byte(), 255);
    assert_eq!(n(-7.0).nearest_byte(), 0);
    assert_eq!(n(f64::NAN).nearest_byte(), 0);
}

#[test]
fn naturals_compare_as_integers() {
    let all: [u64; 7] = [0, 1, 2, 77, 255, 4_503_599_627_370_497, 9_007_199_254_740_991];
    for &a in &all {
        for &b in &all {
            assert_eq!(Binary64::from_u64(a).le(Binary64::from_u64(b)), a <= b);
            assert_eq!(Binary64::from_u64(a).lt(Binary64::from_u64(b)), a < b);
        }
    }
}
