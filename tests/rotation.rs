use pointer_rotate::rotation::{Rotation, SCALE};

fn rotation_of(degrees: f64) -> Rotation {
    let rad = degrees.to_radians();
    let sin_q = (rad.sin() * SCALE as f64).round() as i64;
    let cos_q = (rad.cos() * SCALE as f64).round() as i64;
    Rotation::from_fixed(sin_q, cos_q).expect("a true angle gives a valid pair")
}

#[test]
fn zero_angle_is_exact_identity() {
    let id = Rotation::identity();
    assert_eq!(id, rotation_of(0.0));
    for &(dx, dy) in &[(0, 0), (1, -1), (10, 0), (-37, 1234), (i32::MAX, i32::MIN)] {
        assert_eq!(id.rotate(dx, dy), (dx, dy));
    }
}

#[test]
fn quarter_turn_maps_x_onto_y() {
    let r = rotation_of(90.0);
    assert_eq!(r, Rotation { sin_q: SCALE, cos_q: 0 });
    assert_eq!(r.rotate(10, 0), (0, 10));
    assert_eq!(r.rotate(0, 10), (-10, 0));
}

#[test]
fn eighth_turn_rounds_to_nearest() {
    let r = rotation_of(45.0);
    assert_eq!(r.rotate(10, 0), (7, 7));
    assert_eq!(r.rotate(-10, 0), (-7, -7));
    assert_eq!(r.rotate(3, 4), (-1, 5));
}

#[test]
fn halves_round_away_from_zero() {
    let r = rotation_of(60.0);
    assert_eq!(r.cos_q, SCALE / 2);
    assert_eq!(r.rotate(1, 0), (1, 1));
    assert_eq!(r.rotate(-1, 0), (-1, -1));
}

#[test]
fn rotation_saturates_at_i32_bounds() {
    let r = rotation_of(45.0);
    assert_eq!(r.rotate(i32::MAX, i32::MAX), (0, i32::MAX));
    assert_eq!(r.rotate(i32::MIN, i32::MIN), (0, i32::MIN));
}

#[test]
fn rotating_back_is_within_one_unit() {
    for &deg in &[0.0, 17.0, 30.0, 45.0, 90.0, 123.4, -77.0, 181.0, 359.9] {
        let r = rotation_of(deg);
        let back = rotation_of(-deg);
        assert_eq!(back, Rotation { sin_q: -r.sin_q, cos_q: r.cos_q });
        for &(dx, dy) in &[(0, 0), (1, 0), (0, -1), (10, 3), (-250, 97), (100000, -65536)] {
            let (x1, y1) = r.rotate(dx, dy);
            let (x2, y2) = back.rotate(x1, y1);
            assert!((x2 - dx).abs() <= 1, "{deg}: ({dx}, {dy}) came back as ({x2}, {y2})");
            assert!((y2 - dy).abs() <= 1, "{deg}: ({dx}, {dy}) came back as ({x2}, {y2})");
        }
    }
}

#[test]
fn pairs_that_are_no_angle_are_refused() {
    assert_eq!(Rotation::from_fixed(0, 0), None);
    assert_eq!(Rotation::from_fixed(SCALE + 1, 0), None);
    assert_eq!(Rotation::from_fixed(0, -SCALE - 1), None);
    assert_eq!(Rotation::from_fixed(SCALE / 2, SCALE / 2), None);
    assert_eq!(
        Rotation::from_fixed(0, -SCALE),
        Some(Rotation { sin_q: 0, cos_q: -SCALE })
    );
}
