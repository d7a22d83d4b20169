use physics_sim::fixed::UNIT;
use physics_sim::Vector;

#[test]
fn vector_new_components() {
    let v = Vector::new(3 * UNIT, -2 * UNIT);
    assert_eq!(v.x, 3_000_000);
    assert_eq!(v.y, -2_000_000);
}

#[test]
fn vector_add_exact() {
    let a = Vector::new(1_500_000, -2_000_000);
    let b = Vector::new(250_000, 4_000_000);
    let r = a.add(b);
    assert_eq!(r, Vector::new(1_750_000, 2_000_000));
}

#[test]
fn vector_add_saturates() {
    let a = Vector::new(i64::MAX, i64::MIN);
    let b = Vector::new(1, -1);
    let r = a.add(b);
    assert_eq!(r.x, i64::MAX);
    assert_eq!(r.y, i64::MIN);
}

#[test]
fn vector_sub_exact() {
    let a = Vector::new(1_750_000, 2_000_000);
    let b = Vector::new(250_000, 4_000_000);
    assert_eq!(a.sub(b), Vector::new(1_500_000, -2_000_000));
}

#[test]
fn vector_mul_by_scalar() {
    // (3.5, -2) * 2 == (7, -4)
    let a = Vector::new(3_500_000, -2_000_000);
    let r = a.mul(2 * UNIT);
    assert_eq!(r, Vector::new(7_000_000, -4_000_000));
}

#[test]
fn vector_mul_truncates_toward_zero() {
    // one raw step times one half rounds to zero from both sides
    let a = Vector::new(1, -1);
    let r = a.mul(UNIT / 2);
    assert_eq!(r, Vector::new(0, 0));
}

#[test]
fn vector_div_by_scalar() {
    let a = Vector::new(7_000_000, -4_000_000);
    let r = a.div(2 * UNIT);
    assert_eq!(r, Vector::new(3_500_000, -2_000_000));
}

#[test]
fn add_then_sub_gives_back_original() {
    let a = Vector::new(123_456, -654_321);
    let b = Vector::new(777_777, 42);
    assert_eq!(a.add(b).sub(b), a);
}

#[test]
fn mul_then_div_gives_back_original() {
    let a = Vector::new(3 * UNIT, -4 * UNIT);
    let s = 2 * UNIT;
    assert_eq!(a.mul(s).div(s), a);
}

#[test]
fn magnitude_of_three_four_is_five() {
    let v = Vector::new(3 * UNIT, 4 * UNIT);
    assert_eq!(v.get_mag(), 5 * UNIT);
}

#[test]
fn magnitude_of_zero_vector_is_zero() {
    assert_eq!(Vector::new(0, 0).get_mag(), 0);
}

#[test]
fn magnitude_rounds_down() {
    // |(1, 1)| = sqrt(2) in units: 1414213 raw steps, rounded down
    let v = Vector::new(UNIT, UNIT);
    assert_eq!(v.get_mag(), 1_414_213);
}

#[test]
fn unit_vector_components() {
    let v = Vector::new(3 * UNIT, 4 * UNIT);
    let u = v.get_unit();
    assert_eq!(u, Vector::new(600_000, 800_000));
}

#[test]
fn unit_vector_has_magnitude_one() {
    // exact where the components divide evenly
    let v = Vector::new(3 * UNIT, 4 * UNIT);
    assert_eq!(v.get_unit().get_mag(), UNIT);
    // within tolerance elsewhere: truncation loses under a raw step per axis
    let w = Vector::new(-5 * UNIT, 12 * UNIT);
    let m = w.get_unit().get_mag();
    assert!((UNIT - m).abs() <= 2, "magnitude of unit vector was {m}");
    let u = Vector::new(1_234_567, -7_654_321);
    let m = u.get_unit().get_mag();
    assert!((UNIT - m).abs() <= 2, "magnitude of unit vector was {m}");
}

#[test]
fn normalized_leaves_receiver_unchanged() {
    let mut v = Vector::new(3 * UNIT, 4 * UNIT);
    let u = v.get_normalized();
    assert_eq!(u, Vector::new(600_000, 800_000));
    assert_eq!(v, Vector::new(3 * UNIT, 4 * UNIT));
}

#[test]
fn compound_assign_ops_match_plain_ops() {
    let mut v = Vector::new(UNIT, 2 * UNIT);
    v.add_assign(Vector::new(UNIT, UNIT));
    assert_eq!(v, Vector::new(2 * UNIT, 3 * UNIT));
    v.sub_assign(Vector::new(UNIT, UNIT));
    assert_eq!(v, Vector::new(UNIT, 2 * UNIT));
    v.mul_assign(3 * UNIT);
    assert_eq!(v, Vector::new(3 * UNIT, 6 * UNIT));
    v.div_assign(3 * UNIT);
    assert_eq!(v, Vector::new(UNIT, 2 * UNIT));
}
