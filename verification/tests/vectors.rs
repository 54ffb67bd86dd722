use atomica::vec2::Vec2;

#[test]
fn vector_add_sub_scale() {
    let a = Vec2 { x: 1_000_000, y: -2_000_000 };
    let b = Vec2 { x: 500_000, y: 500_000 };
    assert_eq!(a.add(b), Vec2 { x: 1_500_000, y: -1_500_000 });
    assert_eq!(a.sub(b), Vec2 { x: 500_000, y: -2_500_000 });
    // scaling by 0.5
    assert_eq!(a.scale(500_000), Vec2 { x: 500_000, y: -1_000_000 });
}

#[test]
fn vector_magnitude_three_four_five() {
    let v = Vec2 { x: 3_000_000, y: 4_000_000 };
    assert_eq!(v.magnitude(), 5_000_000);
    let w = Vec2 { x: -3_000_000, y: -4_000_000 };
    assert_eq!(w.magnitude(), 5_000_000);
}

#[test]
fn vector_magnitude_vanishes_below_resolution() {
    // components under one thousandth of a unit square to zero
    let v = Vec2 { x: 999, y: 999 };
    assert_eq!(v.magnitude(), 0);
    let w = Vec2 { x: 1_000, y: 0 };
    assert_eq!(w.magnitude(), 1_000);
}

#[test]
fn vector_zero() {
    assert_eq!(Vec2::zero(), Vec2 { x: 0, y: 0 });
}
