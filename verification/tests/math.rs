use tiled_game::math::{
    gap, isqrt, range_squared, saturating_difference, saturating_sum, Position, UNIT,
};

fn at(x: i32, y: i32, z: i32) -> Position {
    Position::new(x, y, z)
}

#[test]
fn unit_is_a_thousand_sub_units() {
    assert_eq!(UNIT, 1000);
}

#[test]
fn gap_is_the_absolute_difference() {
    assert_eq!(gap(3, -4), 7);
    assert_eq!(gap(-4, 3), 7);
    assert_eq!(gap(5, 5), 0);
    assert_eq!(gap(i32::MIN, i32::MAX), 4_294_967_295);
}

#[test]
fn distance_squared_of_a_three_four_five_triangle() {
    assert_eq!(at(0, 0, 0).distance_squared(&at(3000, 4000, 0)), 25_000_000);
    assert_eq!(at(3000, 4000, 0).distance_squared(&at(0, 0, 0)), 25_000_000);
    assert_eq!(at(1, 2, 3).distance_squared(&at(1, 2, 3)), 0);
    assert_eq!(at(0, 0, 0).distance_squared(&at(1, 2, 2)), 9);
}

#[test]
fn distance_squared_at_the_ends_of_the_world() {
    let low = at(i32::MIN, i32::MIN, i32::MIN);
    let high = at(i32::MAX, i32::MAX, i32::MAX);
    let side: u128 = 4_294_967_295;
    assert_eq!(low.distance_squared(&high), 3 * side * side);
}

#[test]
fn planar_distance_leaves_height_out() {
    assert_eq!(at(0, 0, 0).planar_distance_squared(&at(3000, 4000, 9000)), 25_000_000);
    assert!(at(0, 0, 0).planar_closer_than(&at(99_990, 0, 500_000), 100));
    assert!(!at(0, 0, 0).planar_closer_than(&at(100_000, 0, 0), 100));
}

#[test]
fn range_squared_is_in_squared_sub_units() {
    assert_eq!(range_squared(100), 10_000_000_000);
    assert_eq!(range_squared(0), 0);
    assert_eq!(range_squared(1), 1_000_000);
    let side: u128 = 4_294_967_295_000;
    assert_eq!(range_squared(u32::MAX), side * side);
}

#[test]
fn closer_than_is_strict() {
    let origin = at(0, 0, 0);
    assert!(origin.closer_than(&at(99_999, 0, 0), 100));
    assert!(!origin.closer_than(&at(100_000, 0, 0), 100));
    assert!(!origin.closer_than(&at(100_001, 0, 0), 100));
}

#[test]
fn farther_than_is_strict() {
    let origin = at(0, 0, 0);
    assert!(!origin.farther_than(&at(299_999, 0, 0), 300));
    assert!(!origin.farther_than(&at(300_000, 0, 0), 300));
    assert!(origin.farther_than(&at(300_001, 0, 0), 300));
}

#[test]
fn saturating_sum_stops_at_the_bounds() {
    assert_eq!(saturating_sum(100, 2), 102);
    assert_eq!(saturating_sum(i32::MAX, 1), i32::MAX);
    assert_eq!(saturating_sum(i32::MIN, -1), i32::MIN);
    assert_eq!(saturating_sum(-5, 3), -2);
}

#[test]
fn saturating_difference_stops_at_the_bounds() {
    assert_eq!(saturating_difference(5, 2), 3);
    assert_eq!(saturating_difference(1, 1), 0);
    assert_eq!(saturating_difference(i32::MIN, 1), i32::MIN);
    assert_eq!(saturating_difference(i32::MAX, -1), i32::MAX);
    assert_eq!(saturating_difference(0, i32::MIN), i32::MAX);
}

#[test]
fn isqrt_is_the_floor_of_the_root() {
    assert_eq!(isqrt(0), 0);
    assert_eq!(isqrt(1), 1);
    assert_eq!(isqrt(2), 1);
    assert_eq!(isqrt(15), 3);
    assert_eq!(isqrt(16), 4);
    assert_eq!(isqrt(17), 4);
    assert_eq!(isqrt(25_000_000), 5000);
    assert_eq!(isqrt(24_999_999), 4999);
    assert_eq!(isqrt(u128::MAX), u64::MAX);
}

#[test]
fn step_toward_goes_the_speed_along_the_way() {
    let from = at(0, 0, 0);
    assert_eq!(from.step_toward(&at(3000, 4000, 0), 1000), at(600, 800, 0));
    assert_eq!(from.step_toward(&at(-3000, -4000, 0), 1000), at(-600, -800, 0));
    assert_eq!(from.step_toward(&at(3000, 4000, 0), 900), at(540, 720, 0));
    assert_eq!(at(100, 100, 100).step_toward(&at(100, 100, 5100), 1000), at(100, 100, 1100));
}

#[test]
fn step_toward_cuts_each_coordinate_off_towards_the_start() {
    // The way is 1732 sub-units long; a third of a step of 1000 is 577.35.
    assert_eq!(at(0, 0, 0).step_toward(&at(1000, 1000, 1000), 1000), at(577, 577, 577));
    assert_eq!(at(0, 0, 0).step_toward(&at(-1000, 1000, -1000), 1000), at(-577, 577, -577));
}

#[test]
fn step_toward_stops_at_the_destination() {
    let to = at(3000, 4000, 0);
    assert_eq!(at(0, 0, 0).step_toward(&to, 5000), to);
    assert_eq!(at(0, 0, 0).step_toward(&to, 6000), to);
    assert_eq!(to.step_toward(&to, 1000), to);
    assert_eq!(at(0, 0, 0).step_toward(&to, 0), at(0, 0, 0));
}

#[test]
fn step_toward_works_across_the_whole_world() {
    let from = at(i32::MIN, 0, 0);
    let to = at(i32::MAX, 0, 0);
    assert_eq!(from.step_toward(&to, 1000), at(i32::MIN + 1000, 0, 0));
    assert_eq!(to.step_toward(&from, u32::MAX), from);
}
