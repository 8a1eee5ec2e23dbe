use drone_optimizer::arith::{floor_div, isqrt};

#[test]
fn isqrt_rounds_down() {
    assert_eq!(isqrt(0), 0);
    assert_eq!(isqrt(1), 1);
    assert_eq!(isqrt(24), 4);
    assert_eq!(isqrt(25), 5);
    assert_eq!(isqrt(26), 5);
    assert_eq!(isqrt(1_000_000_000_000_000_000_000_000_000_000_000_000), 1_000_000_000_000_000_000);
}

#[test]
fn isqrt_of_the_largest_value() {
    assert_eq!(isqrt(u128::MAX), u64::MAX);
}

#[test]
fn isqrt_brackets_its_argument() {
    let mut x: u128 = 3;
    for _ in 0..60 {
        let r = isqrt(x) as u128;
        assert!(r * r <= x);
        assert!((r + 1) * (r + 1) > x);
        x = x * 3 + 1;
    }
}

#[test]
fn floor_div_rounds_toward_negative_infinity() {
    assert_eq!(floor_div(7, 2), 3);
    assert_eq!(floor_div(-7, 2), -4);
    assert_eq!(floor_div(-8, 2), -4);
    assert_eq!(floor_div(-1, 1_000_000), -1);
    assert_eq!(floor_div(0, 5), 0);
    assert_eq!(floor_div(i128::MAX, 1), i128::MAX);
    assert_eq!(floor_div(i128::MIN, i128::MAX), -2);
    assert_eq!(floor_div(i128::MIN, 1), i128::MIN);
    assert_eq!(floor_div(i128::MIN + 1, i128::MAX), -1);
}
