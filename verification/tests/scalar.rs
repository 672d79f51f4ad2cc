use rusterizer::scalar::Scalar;

fn fx(v: f64) -> Scalar {
    Scalar::from_raw((v * 4294967296.0).round() as i64)
}

#[test]
fn whole_numbers_are_exact() {
    assert_eq!(Scalar::from_int(3).raw(), 3 << 32);
    assert_eq!(Scalar::from_int(-3).raw(), -(3 << 32));
    assert_eq!(Scalar::one().raw(), 1 << 32);
    assert_eq!(Scalar::zero().raw(), 0);
    assert_eq!(Scalar::from_index(7), Scalar::from_int(7));
}

#[test]
fn sums_saturate() {
    let big = Scalar::from_raw(i64::MAX - 5);
    assert_eq!(big.add(Scalar::from_raw(100)), Scalar::infinity());
    assert_eq!(big.neg().sub(Scalar::from_raw(100)).raw(), i64::MIN);
    assert_eq!(Scalar::from_raw(i64::MIN).neg(), Scalar::infinity());
    assert_eq!(fx(1.5).add(fx(2.25)), fx(3.75));
    assert_eq!(fx(1.5).sub(fx(2.25)), fx(-0.75));
}

#[test]
fn products_round_toward_zero() {
    assert_eq!(fx(1.5).mul(fx(-2.0)), fx(-3.0));
    assert_eq!(Scalar::from_raw(1).mul(Scalar::from_raw(1)).raw(), 0);
    assert_eq!(Scalar::from_raw(-1).mul(Scalar::from_raw(1)).raw(), 0);
    assert_eq!(Scalar::from_raw(3).mul(fx(0.5)).raw(), 1);
    assert_eq!(Scalar::from_raw(-3).mul(fx(0.5)).raw(), -1);
    assert_eq!(fx(100000.0).mul(fx(100000.0)), Scalar::infinity());
    assert_eq!(fx(-100000.0).mul(fx(100000.0)).raw(), i64::MIN);
    assert_eq!(fx(7.25).mul(Scalar::one()), fx(7.25));
}

#[test]
fn quotients_round_toward_zero_and_never_fail() {
    assert_eq!(fx(3.0).div(fx(2.0)), fx(1.5));
    assert_eq!(fx(-3.0).div(fx(2.0)), fx(-1.5));
    assert_eq!(Scalar::from_int(1).div(Scalar::from_int(3)).raw(), 0x5555_5555);
    assert_eq!(Scalar::from_int(-1).div(Scalar::from_int(3)).raw(), -0x5555_5555);
    assert_eq!(fx(2.0).div(Scalar::zero()), Scalar::infinity());
    assert_eq!(fx(-2.0).div(Scalar::zero()).raw(), i64::MIN);
    assert_eq!(Scalar::zero().div(Scalar::zero()), Scalar::zero());
    assert_eq!(fx(5.5).div(fx(5.5)), Scalar::one());
}

#[test]
fn remainder_has_the_sign_of_the_dividend() {
    assert_eq!(fx(7.5).rem(fx(2.0)), fx(1.5));
    assert_eq!(fx(-7.5).rem(fx(2.0)), fx(-1.5));
    assert_eq!(fx(7.5).rem(fx(-2.0)), fx(1.5));
    assert_eq!(fx(7.5).rem(Scalar::zero()), Scalar::zero());
    assert_eq!(Scalar::from_raw(i64::MIN).rem(Scalar::from_raw(-1)), Scalar::zero());
}

#[test]
fn floor_and_index() {
    assert_eq!(fx(2.75).floor(), fx(2.0));
    assert_eq!(fx(-2.75).floor(), fx(-3.0));
    assert_eq!(fx(-2.0).floor(), fx(-2.0));
    assert_eq!(Scalar::from_raw(i64::MIN).floor().raw(), i64::MIN);
    assert_eq!(fx(2.75).to_index(), 2);
    assert_eq!(fx(-2.75).to_index(), 0);
    assert_eq!(fx(0.999).to_index(), 0);
}

#[test]
fn min_max_clamp_abs() {
    assert_eq!(fx(1.0).min(fx(2.0)), fx(1.0));
    assert_eq!(fx(1.0).max(fx(2.0)), fx(2.0));
    assert_eq!(fx(5.0).clamp(fx(0.0), fx(1.0)), fx(1.0));
    assert_eq!(fx(-5.0).clamp(fx(0.0), fx(1.0)), fx(0.0));
    assert_eq!(fx(0.5).clamp(fx(0.0), fx(1.0)), fx(0.5));
    assert_eq!(fx(-0.5).abs(), fx(0.5));
    assert_eq!(Scalar::from_raw(i64::MIN).abs(), Scalar::infinity());
}

#[test]
fn norm_adds_the_squares_exactly() {
    assert_eq!(Scalar::norm(fx(3.0), fx(4.0), fx(0.0), fx(0.0)), fx(5.0));
    assert_eq!(Scalar::norm(fx(1.0), fx(2.0), fx(2.0), fx(4.0)), fx(5.0));
    assert_eq!(Scalar::norm(Scalar::from_raw(3), Scalar::from_raw(-4), fx(0.0), fx(0.0)).raw(), 5);
    let m = Scalar::from_raw(i64::MIN);
    assert_eq!(Scalar::norm(m, m, m, m), Scalar::infinity());
    let top = Scalar::infinity();
    assert_eq!(Scalar::norm(top, top, fx(0.0), fx(0.0)), Scalar::infinity());
    assert_eq!(Scalar::norm(top, fx(0.0), fx(0.0), fx(0.0)), top);
}

#[test]
fn scalars_are_ordered_like_numbers() {
    assert!(fx(-1.5) < fx(-1.0));
    assert!(fx(2.0) > fx(1.999));
    assert!(fx(2.0) <= fx(2.0));
    assert!(fx(2.0) >= fx(2.0));
    assert!(!(fx(2.0) < fx(2.0)));
    assert!(fx(1.0e9) < Scalar::infinity());
    assert_eq!(fx(1.0).partial_cmp(&fx(2.0)), Some(std::cmp::Ordering::Less));
}
