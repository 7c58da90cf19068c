use backtest_recorder::decimal::{fmt_i32, fmt_i64, fmt_u64, fmt_usize};

#[test]
fn fmt_u64_exact_values() {
    assert_eq!(fmt_u64(0), "0");
    assert_eq!(fmt_u64(7), "7");
    assert_eq!(fmt_u64(10), "10");
    assert_eq!(fmt_u64(105), "105");
    assert_eq!(fmt_u64(u64::MAX), "18446744073709551615");
}

#[test]
fn fmt_i64_exact_values() {
    assert_eq!(fmt_i64(0), "0");
    assert_eq!(fmt_i64(-1), "-1");
    assert_eq!(fmt_i64(100), "100");
    assert_eq!(fmt_i64(-105), "-105");
    assert_eq!(fmt_i64(i64::MAX), "9223372036854775807");
    assert_eq!(fmt_i64(i64::MIN), "-9223372036854775808");
}

#[test]
fn fmt_i32_exact_values() {
    assert_eq!(fmt_i32(0), "0");
    assert_eq!(fmt_i32(i32::MIN), "-2147483648");
    assert_eq!(fmt_i32(i32::MAX), "2147483647");
}

#[test]
fn fmt_usize_exact_values() {
    assert_eq!(fmt_usize(0), "0");
    assert_eq!(fmt_usize(12), "12");
    assert_eq!(fmt_usize(usize::MAX), format!("{}", usize::MAX));
}

#[test]
fn fmt_matches_std_rendering() {
    for n in [-1000000007i64, -42, -10, -9, 0, 9, 10, 99, 100, 123456789] {
        assert_eq!(fmt_i64(n), format!("{}", n));
    }
}
