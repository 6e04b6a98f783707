use physarum::fixed::{clamp, floor_div, floor_mod, lerp, map_range, UNIT};

#[test]
fn clamp_leaves_values_inside_the_range() {
    assert_eq!(clamp(5, 0, 10), 5);
    assert_eq!(clamp(0, 0, 10), 0);
    assert_eq!(clamp(10, 0, 10), 10);
}

#[test]
fn clamp_stops_values_at_the_bounds() {
    assert_eq!(clamp(-1, 0, UNIT), 0);
    assert_eq!(clamp(UNIT + 1, 0, UNIT), UNIT);
    assert_eq!(clamp(i64::MIN, 0, UNIT), 0);
    assert_eq!(clamp(i64::MAX, 0, UNIT), UNIT);
}

#[test]
fn clamp_accepts_bounds_in_either_order() {
    assert_eq!(clamp(5, 10, 0), 5);
    assert_eq!(clamp(-3, 10, 0), 0);
    assert_eq!(clamp(30, 10, 0), 10);
}

#[test]
fn floor_div_rounds_down() {
    assert_eq!(floor_div(7, 2), 3);
    assert_eq!(floor_div(-7, 2), -4);
    assert_eq!(floor_div(-8, 2), -4);
    assert_eq!(floor_div(-1, UNIT), -1);
    assert_eq!(floor_div(0, UNIT), 0);
    assert_eq!(floor_div(i64::MIN, 1), i64::MIN);
    assert_eq!(floor_div(i64::MIN, 2), i64::MIN / 2);
}

#[test]
fn floor_mod_is_never_negative() {
    assert_eq!(floor_mod(7, 5), 2);
    assert_eq!(floor_mod(-7, 5), 3);
    assert_eq!(floor_mod(-5, 5), 0);
    assert_eq!(floor_mod(-1, 10), 9);
    assert_eq!(floor_mod(i64::MIN, 10), 2);
}

#[test]
fn lerp_meets_both_ends() {
    assert_eq!(lerp(200_000, 900_000, 0), 200_000);
    assert_eq!(lerp(200_000, 900_000, UNIT), 900_000);
}

#[test]
fn lerp_weighs_the_ends() {
    assert_eq!(lerp(0, UNIT, 350_000), 350_000);
    assert_eq!(lerp(UNIT, 0, 350_000), 650_000);
    assert_eq!(lerp(3_000_000, 5_000_000, 500_000), 4_000_000);
    assert_eq!(lerp(100, 101, 350_000), 100);
    assert_eq!(lerp(-3_000_000, -5_000_000, 500_000), -4_000_000);
}

#[test]
fn lerp_between_equal_ends_is_that_end() {
    assert_eq!(lerp(123_457, 123_457, 350_000), 123_457);
}

#[test]
fn map_range_takes_ends_to_ends() {
    assert_eq!(map_range(0, 0, 255, 0, UNIT), 0);
    assert_eq!(map_range(255, 0, 255, 0, UNIT), UNIT);
    assert_eq!(map_range(3, 0, 10, 0, UNIT), 300_000);
}

#[test]
fn map_range_rounds_towards_zero() {
    assert_eq!(map_range(128, 0, 255, 0, UNIT), 501_960);
    assert_eq!(map_range(1, 0, 3, 0, 10), 3);
    assert_eq!(map_range(-1, 0, 3, 0, 10), -3);
}

#[test]
fn map_range_does_not_clamp() {
    assert_eq!(map_range(15, 0, 10, 0, UNIT), 1_500_000);
    assert_eq!(map_range(-5, 0, 10, 0, UNIT), -500_000);
}

#[test]
fn map_range_follows_a_falling_line() {
    assert_eq!(map_range(500_000, 0, UNIT, 252, 139), 196);
    assert_eq!(map_range(0, 0, UNIT, 252, 139), 252);
    assert_eq!(map_range(UNIT, 0, UNIT, 252, 139), 139);
}
