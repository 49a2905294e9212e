use xinghuo_core::num::{COORD_LIMIT, NUM_LIMIT, PCT_LIMIT};
use xinghuo_core::size::{InnerSize, Quat, Size, Value};

#[test]
fn percent_resolves_to_fraction_of_reference() {
    // 50% of 200px, references in thousandths of a pixel
    let s = Size::from("50%");
    assert_eq!(s.update(200_000).value(), 100_000);
    // idempotent under a constant reference
    assert_eq!(s.update(200_000).update(200_000).value(), 100_000);
}

#[test]
fn percent_is_capped_at_the_reference() {
    let s = Size::from("150%");
    assert_eq!(s.update(200_000).value(), 200_000);
}

#[test]
fn percent_against_zero_reference_resolves_to_zero() {
    let s = Size::from("50%");
    assert_eq!(s.update(0).value(), 0);
}

#[test]
fn absolute_passes_through_zero_reference_unclamped() {
    let s = Size::from("10");
    assert_eq!(s.update(0).value(), 10_000);
    let big = Size::from("300");
    assert_eq!(big.update(0).value(), 300_000);
}

#[test]
fn absolute_is_capped_at_a_nonzero_reference() {
    let s = Size::from("300");
    assert_eq!(s.update(100_000).value(), 100_000);
    assert_eq!(s.update(400_000).value(), 300_000);
}

#[test]
fn decimal_tokens_parse_in_thousandths() {
    assert_eq!(Size::from("10.5").value(), 10_500);
    assert_eq!(Size::from("0.25").value(), 250);
    assert_eq!(Size::from("5.").value(), 5_000);
    assert_eq!(Size::from(".5").value(), 500);
    assert_eq!(Size::from("-2").value(), -2_000);
    assert_eq!(Size::from("+2").value(), 2_000);
    // the fourth fractional digit is dropped
    assert_eq!(Size::from("1.2345").value(), 1_234);
}

#[test]
fn percent_tokens_carry_thousandths_of_a_percent() {
    let s = Size::from("50.1%");
    assert_eq!(s.param, InnerSize::Percent(50_100));
    assert_eq!(s.value(), 0);
    assert_eq!(s.update(100_000).value(), 50_100);
}

#[test]
fn malformed_tokens_resolve_to_zero() {
    assert_eq!(Size::from("abc").value(), 0);
    assert_eq!(Size::from("").value(), 0);
    assert_eq!(Size::from("1.2.3").value(), 0);
    assert_eq!(Size::from("-").value(), 0);
    assert_eq!(Size::from("%").value(), 0);
    assert_eq!(Size::from("1x2").value(), 0);
}

#[test]
fn huge_values_saturate_at_the_parse_bound() {
    assert_eq!(Size::from("99999999999999999999").value(), NUM_LIMIT);
    match Size::from("99999999999999%").param {
        InnerSize::Percent(p) => assert_eq!(p, PCT_LIMIT),
        _ => panic!("expected a percentage"),
    }
}

#[test]
fn new_value_saturates_at_the_coordinate_bound() {
    let s = Size::new_value(i64::MAX);
    assert_eq!(s.value(), COORD_LIMIT);
    assert_eq!(Size::new_value(-i64::MAX).value(), -COORD_LIMIT);
}

#[test]
fn sizes_compare_by_resolved_value() {
    let a = Size::from("10");
    let b = Size::new_value(10_000);
    assert!(a == b);
    assert!(Size::from("1") < Size::from("2"));
    assert_eq!(Size::zero().value(), 0);
    assert_eq!(Size::default().value(), 0);
}

#[test]
fn value_enum_expands_shorthand() {
    assert_eq!(Value::Quat(1, 2, 3, 4).value(), (1, 2, 3, 4));
    assert_eq!(Value::Binary(1, 2).value(), (1, 2, 1, 2));
    assert_eq!(Value::Single(7).value(), (7, 7, 7, 7));
    assert_eq!(Value::default(), Value::Single(0));
}

#[test]
fn quat_shorthand_orders_sides() {
    let big = xinghuo_core::geom::Vec2 { x: 1_000_000, y: 1_000_000 };
    // one token: all four sides alike
    let q1 = Quat::from("10").update(big);
    assert_eq!(q1.top().value(), 10_000);
    assert_eq!(q1.right().value(), 10_000);
    assert_eq!(q1.bottom().value(), 10_000);
    assert_eq!(q1.left().value(), 10_000);
    // two tokens: top-and-bottom, right-and-left
    let q2 = Quat::from("5 10").update(big);
    assert_eq!(q2.top().value(), 5_000);
    assert_eq!(q2.right().value(), 10_000);
    assert_eq!(q2.bottom().value(), 5_000);
    assert_eq!(q2.left().value(), 10_000);
    // three tokens: top, right-and-left, bottom
    let q3 = Quat::from("1 2 3").update(big);
    assert_eq!(q3.top().value(), 1_000);
    assert_eq!(q3.right().value(), 2_000);
    assert_eq!(q3.left().value(), 2_000);
    assert_eq!(q3.bottom().value(), 3_000);
    // four tokens: top, right, bottom, left
    let q4 = Quat::from("1 2 3 4").update(big);
    assert_eq!(q4.top().value(), 1_000);
    assert_eq!(q4.right().value(), 2_000);
    assert_eq!(q4.bottom().value(), 3_000);
    assert_eq!(q4.left().value(), 4_000);
    // mixed units, as in "50.1% 10.0 20.0 10.0"
    let q5 = Quat::from("50.1% 10.0 20.0 10.0").update(xinghuo_core::geom::Vec2 {
        x: 100_000,
        y: 100_000,
    });
    assert_eq!(q5.top().value(), 50_100);
    assert_eq!(q5.right().value(), 10_000);
    assert_eq!(q5.bottom().value(), 20_000);
    assert_eq!(q5.left().value(), 10_000);
}

#[test]
fn quat_one_token_resolves_alike_for_any_large_reference() {
    // the same shorthand against two different references
    for r in [10_000i64, 77_000, 1_000_000] {
        let q = Quat::from("10").update(xinghuo_core::geom::Vec2 { x: r, y: r });
        assert_eq!(q.value().map(|s| s.value()), [10_000; 4]);
    }
}

#[test]
fn quat_empty_string_leaves_every_side_zero() {
    let q = Quat::from("");
    assert_eq!(q.top().value(), 0);
    assert_eq!(q.left().value(), 0);
}
