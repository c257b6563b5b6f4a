use portfolio_tracker::decimal::Dec;

fn dec(s: &str) -> Dec {
    Dec::parse(s).unwrap()
}

#[test]
fn parse_keeps_mantissa_and_scale() {
    let d = dec("-1777.02");
    assert_eq!(d.mantissa, -177702);
    assert_eq!(d.scale, 2);
    assert!(Dec::parse("abc").is_none());
}

#[test]
fn sums_are_exact_across_scales() {
    let s = dec("1.5").checked_add(dec("2.25")).unwrap();
    assert_eq!((s.mantissa, s.scale), (375, 2));
    let d = dec("1").checked_sub(dec("0.0001")).unwrap();
    assert!(d.same_value(&dec("0.9999")));
}

#[test]
fn sum_that_overflows_is_refused_and_long_sums_are_rounded() {
    let big = Dec::from_parts(79228162514264337593543950335, 0).unwrap();
    assert!(big.checked_add(dec("1")).is_none());
    assert!(big.checked_add(dec("0.1")).unwrap().same_value(&big));
    let third = dec("10000").checked_div(dec("3")).unwrap();
    let two = third.checked_add(third).unwrap();
    assert_eq!((two.mantissa, two.scale), (66666666666666666666666666666, 25));
    let three = two.checked_add(third).unwrap();
    assert!(three.scale < 25);
}

#[test]
fn from_parts_checks_range() {
    assert!(Dec::from_parts(1, 29).is_none());
    assert!(Dec::from_parts(79228162514264337593543950336, 0).is_none());
    assert!(Dec::from_parts(5, 28).is_some());
}

#[test]
fn quotient_and_product() {
    let q = dec("-1777.02").checked_div(dec("20")).unwrap();
    assert!(q.same_value(&dec("-88.851")));
    assert!(dec("1").checked_div(dec("0")).is_none());
    let p = dec("1.5").checked_mul(dec("-4")).unwrap();
    assert!(p.same_value(&dec("-6")));
}

#[test]
fn rounding_half_to_even() {
    assert!(dec("2.345").round_dp(2).same_value(&dec("2.34")));
    assert!(dec("2.355").round_dp(2).same_value(&dec("2.36")));
    assert!(dec("0.00004").round_dp(4).same_value(&dec("0")));
    let kept = dec("1.5").round_dp(4);
    assert_eq!((kept.mantissa, kept.scale), (15, 1));
}

#[test]
fn floor_abs_and_signs() {
    assert_eq!(dec("-20.75").floor_abs_i64(), Some(20));
    assert_eq!(dec("0.5").floor_abs_i64(), Some(0));
    assert!(dec("-3").is_negative());
    assert!(dec("3").is_positive());
    assert!(dec("0.000").is_zero());
    assert!(dec("-3").abs().same_value(&dec("3")));
    assert!(dec("3").neg().same_value(&dec("-3")));
}

#[test]
fn exact_quotients_and_products_keep_their_scale() {
    let q = dec("-1000").checked_div(dec("10")).unwrap();
    assert_eq!((q.mantissa, q.scale), (-100, 0));
    let q = dec("0").checked_div(dec("7")).unwrap();
    assert_eq!(q.mantissa, 0);
    let p = dec("1.5").checked_mul(dec("-4")).unwrap();
    assert_eq!((p.mantissa, p.scale), (-60, 1));
    let p = dec("0.00").checked_mul(dec("5")).unwrap();
    assert_eq!((p.mantissa, p.scale), (0, 0));
}
