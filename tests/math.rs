use tokenomics::math::{
    EXP_SATURATED, PRECISION, exp_approximation, integer_sqrt, ln_approximation, pow, sigmoid,
};

#[test]
fn test_exp_zero() {
    // e^0 = 1
    assert_eq!(exp_approximation(0), PRECISION);
}

#[test]
fn test_exp_one() {
    // e^1 ≈ 2.718...
    let result = exp_approximation(PRECISION);
    let expected = 2_718_281_828_459u128;
    let diff = if result > expected {
        result - expected
    } else {
        expected - result
    };
    // Allow 1% error
    assert!(diff < expected / 100);
}

#[test]
fn test_exp_two() {
    // e^2 ≈ 7.389...
    let result = exp_approximation(PRECISION * 2);
    let expected = 7_389_056_098_930u128;
    let diff = if result > expected {
        result - expected
    } else {
        expected - result
    };
    assert!(diff < expected / 50); // 2% tolerance
}

#[test]
fn test_integer_sqrt() {
    assert_eq!(integer_sqrt(0), 0);
    assert_eq!(integer_sqrt(1), 1);
    assert_eq!(integer_sqrt(4), 2);
    assert_eq!(integer_sqrt(9), 3);
    assert_eq!(integer_sqrt(16), 4);
    assert_eq!(integer_sqrt(100), 10);
    assert_eq!(integer_sqrt(10000), 100);
    assert_eq!(integer_sqrt(99), 9); // floor(√99) = 9
}

#[test]
fn test_pow() {
    // 2^3 = 8
    let result = pow(PRECISION * 2, 3);
    assert_eq!(result, PRECISION * 8);

    // 2^0 = 1
    assert_eq!(pow(PRECISION * 2, 0), PRECISION);

    // 2^1 = 2
    assert_eq!(pow(PRECISION * 2, 1), PRECISION * 2);
}

#[test]
fn test_sigmoid_zero() {
    // S(0) = 0.5
    let result = sigmoid(0, false);
    let expected = PRECISION / 2;
    let diff = if result > expected {
        result - expected
    } else {
        expected - result
    };
    assert!(diff < PRECISION / 100); // 1% tolerance
}

#[test]
fn test_sigmoid_large_positive() {
    // S(large) ≈ 1
    let result = sigmoid(PRECISION * 10, false);
    assert!(result > PRECISION * 99 / 100); // > 99%
}

#[test]
fn test_sigmoid_large_negative() {
    // S(-large) ≈ 0
    let result = sigmoid(PRECISION * 10, true);
    assert!(result < PRECISION / 100); // < 1%
}

#[test]
fn exp_exact_values() {
    assert_eq!(exp_approximation(PRECISION), 2_718_281_828_452);
    assert_eq!(exp_approximation(PRECISION * 2), 7_389_056_098_920);
    assert_eq!(exp_approximation(PRECISION * 10), 21_991_482_025_664_950);
    assert_eq!(exp_approximation(PRECISION * 50), 9_626_973_339_598_027_608_580_392);
}

#[test]
fn exp_saturates_beyond_fifty() {
    assert_eq!(exp_approximation(PRECISION * 50 + 1), EXP_SATURATED);
    assert_eq!(exp_approximation(u128::MAX), u128::MAX / 2);
}

#[test]
fn exp_is_non_decreasing_on_samples() {
    let mut last = exp_approximation(0);
    let mut x: u128 = 0;
    while x <= 8 * PRECISION {
        let e = exp_approximation(x);
        assert!(e >= last);
        last = e;
        x += PRECISION / 7;
    }
}

#[test]
fn ln_fallbacks_and_identity() {
    assert_eq!(ln_approximation(0), 0);
    assert_eq!(ln_approximation(PRECISION), 0);
    assert_eq!(ln_approximation(1), 0);
}

#[test]
fn ln_exact_values() {
    // Directly summed band.
    assert_eq!(ln_approximation(2 * PRECISION), 405_465_092_732);
    // Halved into the band, with ln 2 added back.
    assert_eq!(ln_approximation(3 * PRECISION), 980_829_253_010);
    assert_eq!(ln_approximation(10 * PRECISION), 2_261_763_098_470);
    // Negative logarithms saturate at zero.
    assert_eq!(ln_approximation(PRECISION / 2), 0);
    assert_eq!(ln_approximation(PRECISION / 10), 0);
}

#[test]
fn integer_sqrt_floor_of_large_values() {
    assert_eq!(integer_sqrt(u128::MAX), u64::MAX as u128);
    assert_eq!(integer_sqrt(2), 1);
    assert_eq!(integer_sqrt(1_000_000_000_000), 1_000_000);
    assert_eq!(integer_sqrt(1_000_000_000_001), 1_000_000);
    assert_eq!(integer_sqrt(999_999_999_999), 999_999);
}

#[test]
fn pow_exact_values() {
    assert_eq!(pow(PRECISION * 3 / 2, 2), 2_250_000_000_000);
    assert_eq!(pow(PRECISION * 2, 10), 1_024 * PRECISION);
    assert_eq!(pow(12345, 0), PRECISION);
    assert_eq!(pow(12345, 1), 12345);
}

#[test]
fn sigmoid_exact_values() {
    assert_eq!(sigmoid(0, false), PRECISION / 2);
    assert_eq!(sigmoid(0, true), PRECISION / 2);
    assert_eq!(sigmoid(PRECISION, false), 731_058_578_629);
    assert_eq!(sigmoid(PRECISION, true), 268_941_421_370);
    assert_eq!(sigmoid(PRECISION * 10, false), 999_954_529_916);
    assert_eq!(sigmoid(PRECISION * 10, true), 45_470_083);
    assert_eq!(sigmoid(PRECISION * 51, false), PRECISION);
}
