use shovel::math::{
    create_sorted_coordinates, encode_position, encode_v, section_coordinate, MAX_RADIUS,
};
use shovel::protocol::SimpleLocation;

fn at(x: f64, y: f64, z: f64) -> SimpleLocation {
    SimpleLocation { x: x.to_bits(), y: y.to_bits(), z: z.to_bits() }
}

#[test]
fn sorted_coordinates_of_radius_zero() {
    assert_eq!(*create_sorted_coordinates(0), vec![(0, 0)]);
}

#[test]
fn sorted_coordinates_of_radius_one() {
    assert_eq!(
        *create_sorted_coordinates(1),
        vec![(0, 0), (-1, 0), (0, -1), (0, 1), (1, 0), (-1, -1), (-1, 1), (1, -1), (1, 1)]
    );
}

#[test]
fn sorted_coordinates_hold_the_square_by_distance() {
    let coords = create_sorted_coordinates(8);
    assert_eq!(coords.len(), 17 * 17);
    let distance = |c: &(i32, i32)| c.0 * c.0 + c.1 * c.1;
    for pair in coords.windows(2) {
        assert!(distance(&pair[0]) <= distance(&pair[1]));
        if distance(&pair[0]) == distance(&pair[1]) {
            assert!(pair[0] < pair[1]);
        }
    }
    for x in -8..=8 {
        for z in -8..=8 {
            assert_eq!(coords.iter().filter(|c| **c == (x, z)).count(), 1);
        }
    }
}

#[test]
fn the_largest_radius_has_distances_that_fit() {
    let r = MAX_RADIUS;
    assert!(r.checked_mul(r).and_then(|d| d.checked_add(r * r)).is_some());
    assert!((r + 1).checked_mul(r + 1).and_then(|d| d.checked_mul(2)).is_none());
}

#[test]
fn coordinates_are_rounded_to_fixed_point() {
    assert_eq!(encode_v(1.0f64.to_bits()), 4096);
    assert_eq!(encode_v((-1.0f64).to_bits()), -4096);
    assert_eq!(encode_v(0.5f64.to_bits()), 2048);
    assert_eq!(encode_v((0.5f64 / 4096.0).to_bits()), 1);
    assert_eq!(encode_v((-0.5f64 / 4096.0).to_bits()), -1);
    assert_eq!(encode_v((0.49f64 / 4096.0).to_bits()), 0);
    assert_eq!(encode_v(f64::NAN.to_bits()), 0);
    assert_eq!(encode_v(f64::INFINITY.to_bits()), i64::MAX);
    assert_eq!(encode_v(f64::NEG_INFINITY.to_bits()), i64::MIN);
}

#[test]
fn ways_are_counted_along_each_axis() {
    assert_eq!(
        encode_position(at(1.0, 2.0, 3.0), at(2.0, 2.0, -1.0)),
        (4096, 0, -16384)
    );
}

#[test]
fn ways_add_up() {
    let (a, b, c) = (at(0.1, -7.3, 1e6), at(5.05, 0.0, -3.25), at(-2.0, 64.7, 9.999));
    let ab = encode_position(a, b);
    let bc = encode_position(b, c);
    let ac = encode_position(a, c);
    assert_eq!((ab.0 + bc.0, ab.1 + bc.1, ab.2 + bc.2), ac);
}

#[test]
fn sections_are_sixteen_blocks_wide() {
    for block in -70..70 {
        assert_eq!(section_coordinate(block), block >> 4);
    }
    assert_eq!(section_coordinate(-1), -1);
    assert_eq!(section_coordinate(i32::MIN), -134_217_728);
    assert_eq!(section_coordinate(i32::MAX), 134_217_727);
}
