use physarum::cell::Cell;
use physarum::fixed::UNIT;
use physarum::geometry::Direction;
use physarum::grid::Grid;
use physarum::particle::{
    is_tied, steer, turn_heading, Bearings, Particle, Readings, Turn, HALF, HEADING_DISTANCE,
    SENSE_ANGLE, SENSE_DISTANCE, TAU, TURN_ANGLE,
};
use physarum::random::RandomSource;

fn millionths(v: f64) -> i64 {
    (v * 1_000_000.0).round() as i64
}

fn towards(angle: i64) -> Direction {
    let a = angle as f64 / 1_000_000.0;
    Direction::new(millionths(a.cos()), millionths(a.sin())).unwrap()
}

fn bearings_for(p: &Particle) -> Bearings {
    let a = p.angles();
    Bearings {
        sense_left: towards(a.sense_left),
        ahead: towards(a.ahead),
        sense_right: towards(a.sense_right),
        turn_left: towards(a.turn_left),
        turn_right: towards(a.turn_right),
    }
}

fn numbered_grid(width: usize, height: usize) -> Grid {
    let cells: Vec<Cell> = (0..width * height)
        .map(|i| Cell::from_channels([3 * i as i64, 3 * i as i64, 3 * i as i64]).unwrap())
        .collect();
    Grid::from_cells(width, height, 1, cells).unwrap()
}

fn lit(width: usize, height: usize, at: &[(usize, i64)]) -> Grid {
    let mut cells = vec![Cell::empty(); width * height];
    for (i, v) in at {
        cells[*i] = Cell::from_channels([*v, *v, *v]).unwrap();
    }
    Grid::from_cells(width, height, 1, cells).unwrap()
}

fn read(left: i64, center: i64, right: i64) -> Readings {
    Readings { left, center, right }
}

#[test]
fn new_particle_has_the_default_parameters() {
    let p = Particle::new(1_500_000, 2_500_000, 42);
    assert_eq!((p.position().x, p.position().y), (1_500_000, 2_500_000));
    assert_eq!(p.heading_angle(), 42);
    assert_eq!(p.heading_distance(), HEADING_DISTANCE);
    assert_eq!(p.sense_angle(), SENSE_ANGLE);
    assert_eq!(p.sense_distance(), SENSE_DISTANCE);
    assert_eq!(p.turn_angle(), TURN_ANGLE);
    assert_eq!(*p.color(), [UNIT, UNIT, UNIT]);
}

#[test]
fn default_parameters_have_their_values() {
    assert_eq!(HEADING_DISTANCE, 1_687_500);
    assert_eq!(SENSE_DISTANCE, 1_875_000);
    assert_eq!(SENSE_ANGLE, millionths(std::f64::consts::FRAC_PI_2));
    assert_eq!(TURN_ANGLE, millionths(std::f64::consts::FRAC_PI_4));
    assert_eq!(TAU, millionths(std::f64::consts::TAU));
    assert_eq!(HALF, UNIT / 2);
}

#[test]
fn set_color_maps_bytes_to_weights() {
    let mut p = Particle::new(0, 0, 0);
    p.set_color([255, 128, 0]);
    assert_eq!(*p.color(), [UNIT, 501_960, 0]);
    p.set_color([252, 33, 73]);
    assert_eq!(*p.color(), [988_235, 129_411, 286_274]);
    assert_eq!(p.heading_distance(), HEADING_DISTANCE);
    assert_eq!((p.position().x, p.position().y, p.heading_angle()), (0, 0, 0));
}

#[test]
fn tune_replaces_the_parameters_of_motion() {
    let mut p = Particle::new(7, 8, 9);
    p.set_color([0, 255, 0]);
    p.tune(1, 2, 3, 4);
    assert_eq!(p.heading_distance(), 1);
    assert_eq!(p.sense_angle(), 2);
    assert_eq!(p.sense_distance(), 3);
    assert_eq!(p.turn_angle(), 4);
    assert_eq!((p.position().x, p.position().y, p.heading_angle()), (7, 8, 9));
    assert_eq!(*p.color(), [0, UNIT, 0]);
}

#[test]
fn strongest_left_turns_left() {
    assert_eq!(steer(&read(5, 1, 2), 0), Turn::Left);
    assert_eq!(steer(&read(5, 1, 2), UNIT - 1), Turn::Left);
    assert_eq!(steer(&read(5, 4, 4), 0), Turn::Left);
}

#[test]
fn strongest_right_turns_right() {
    assert_eq!(steer(&read(2, 1, 5), 0), Turn::Right);
    assert_eq!(steer(&read(2, 1, 5), UNIT - 1), Turn::Right);
    assert_eq!(steer(&read(4, 4, 5), UNIT - 1), Turn::Right);
}

#[test]
fn tie_between_left_and_right_takes_the_sample() {
    assert_eq!(steer(&read(0, 0, 0), HALF + 1), Turn::Left);
    assert_eq!(steer(&read(0, 0, 0), HALF), Turn::Right);
    assert_eq!(steer(&read(0, 0, 0), 0), Turn::Right);
    assert_eq!(steer(&read(0, 0, 0), UNIT - 1), Turn::Left);
    assert_eq!(steer(&read(5, 1, 5), UNIT - 1), Turn::Left);
    assert_eq!(steer(&read(5, 1, 5), 0), Turn::Right);
}

#[test]
fn tie_under_a_stronger_centre_still_takes_the_sample() {
    assert_eq!(steer(&read(3, 9, 3), UNIT - 1), Turn::Left);
    assert_eq!(steer(&read(3, 9, 3), 0), Turn::Right);
}

#[test]
fn unequal_sides_without_a_winner_go_straight() {
    assert_eq!(steer(&read(3, 9, 4), UNIT - 1), Turn::Straight);
    assert_eq!(steer(&read(4, 9, 3), 0), Turn::Straight);
    assert_eq!(steer(&read(5, 5, 3), 0), Turn::Straight);
    assert_eq!(steer(&read(3, 5, 5), UNIT - 1), Turn::Straight);
}

#[test]
fn is_tied_tells_when_the_sample_matters() {
    assert!(is_tied(&read(0, 0, 0)));
    assert!(is_tied(&read(3, 9, 3)));
    assert!(is_tied(&read(5, 1, 5)));
    assert!(!is_tied(&read(5, 1, 2)));
    assert!(!is_tied(&read(2, 1, 5)));
    assert!(!is_tied(&read(3, 9, 4)));
}

#[test]
fn turn_heading_adds_or_subtracts_the_turn_angle() {
    assert_eq!(turn_heading(0, TURN_ANGLE, Turn::Left), -TURN_ANGLE);
    assert_eq!(turn_heading(0, TURN_ANGLE, Turn::Right), TURN_ANGLE);
    assert_eq!(turn_heading(123, TURN_ANGLE, Turn::Straight), 123);
    assert_eq!(turn_heading(10, -3, Turn::Left), 13);
    assert_eq!(turn_heading(10, -3, Turn::Right), 7);
}

#[test]
fn turn_heading_stops_at_the_ends_of_the_range() {
    assert_eq!(turn_heading(i64::MAX - 1, TURN_ANGLE, Turn::Right), i64::MAX);
    assert_eq!(turn_heading(i64::MIN + 1, TURN_ANGLE, Turn::Left), i64::MIN);
    assert_eq!(turn_heading(i64::MAX - 1, -5, Turn::Left), i64::MAX);
    assert_eq!(turn_heading(i64::MIN + 1, -5, Turn::Right), i64::MIN);
    assert_eq!(turn_heading(0, i64::MIN, Turn::Left), i64::MAX);
}

#[test]
fn heading_accumulates_without_being_normalised() {
    let mut h: i64 = 0;
    for _ in 0..20 {
        h = turn_heading(h, TURN_ANGLE, Turn::Right);
    }
    assert_eq!(h, 20 * TURN_ANGLE);
    assert!(h > TAU);
}

#[test]
fn angles_lie_about_the_heading() {
    let mut p = Particle::new(0, 0, 1_000_000);
    let a = p.angles();
    assert_eq!(a.sense_left, 1_000_000 - SENSE_ANGLE);
    assert_eq!(a.ahead, 1_000_000);
    assert_eq!(a.sense_right, 1_000_000 + SENSE_ANGLE);
    assert_eq!(a.turn_left, 1_000_000 - TURN_ANGLE);
    assert_eq!(a.turn_right, 1_000_000 + TURN_ANGLE);
    p.tune(HEADING_DISTANCE, 300_000, SENSE_DISTANCE, -200_000);
    let b = p.angles();
    assert_eq!((b.sense_left, b.sense_right), (700_000, 1_300_000));
    assert_eq!((b.turn_left, b.turn_right), (1_200_000, 800_000));
    let far = Particle::new(0, 0, i64::MAX).angles();
    assert_eq!((far.sense_right, far.turn_right), (i64::MAX, i64::MAX));
    assert_eq!(far.turn_left, i64::MAX - TURN_ANGLE);
}

#[test]
fn sensors_read_the_cells_around_the_heading() {
    let g = numbered_grid(10, 10);
    let p = Particle::new(5_500_000, 5_500_000, 0);
    let r = p.sense(&g, &bearings_for(&p));
    assert_eq!(r.left, 3 * 75);
    assert_eq!(r.center, 3 * 57);
    assert_eq!(r.right, 3 * 35);
}

#[test]
fn sensors_wrap_round_the_grid() {
    let g = numbered_grid(10, 10);
    let p = Particle::new(9_500_000, 500_000, 0);
    let r = p.sense(&g, &bearings_for(&p));
    assert_eq!(r.left, 3 * 29);
    assert_eq!(r.center, 3 * 1);
    assert_eq!(r.right, 3 * 89);
}

#[test]
fn fits_checks_the_position_and_the_step() {
    assert!(Particle::new(0, 0, 0).fits(10, 10));
    assert!(Particle::new(9_999_999, 9_999_999, 0).fits(10, 10));
    assert!(!Particle::new(10_000_000, 0, 0).fits(10, 10));
    assert!(!Particle::new(0, -1, 0).fits(10, 10));
    assert!(!Particle::new(0, 0, 0).fits(1, 10));
    let mut far = Particle::new(0, 0, 0);
    far.tune(HEADING_DISTANCE, SENSE_ANGLE, 40_000_000_000, TURN_ANGLE);
    assert!(!far.fits(10, 10));
}

#[test]
fn advance_moves_along_the_new_course() {
    let mut p = Particle::new(5_000_000, 5_000_000, 0);
    let b = bearings_for(&p);
    p.advance(Turn::Straight, &b, 10, 10);
    assert_eq!((p.position().x, p.position().y), (6_687_500, 5_000_000));
    assert_eq!(p.heading_angle(), 0);

    let mut q = Particle::new(5_000_000, 5_000_000, 0);
    q.advance(Turn::Left, &b, 10, 10);
    assert_eq!((q.position().x, q.position().y), (6_193_243, 6_193_243));
    assert_eq!(q.heading_angle(), -TURN_ANGLE);

    let mut r = Particle::new(5_000_000, 5_000_000, 0);
    r.advance(Turn::Right, &b, 10, 10);
    assert_eq!((r.position().x, r.position().y), (6_193_243, 3_806_757));
    assert_eq!(r.heading_angle(), TURN_ANGLE);
}

#[test]
fn advance_wraps_each_axis_once() {
    let mut p = Particle::new(9_000_000, 500_000, 0);
    let b = bearings_for(&p);
    p.advance(Turn::Right, &b, 10, 10);
    assert_eq!((p.position().x, p.position().y), (193_243, 9_306_757));

    let mut q = Particle::new(8_312_500, 0, 0);
    q.advance(Turn::Straight, &b, 10, 10);
    assert_eq!((q.position().x, q.position().y), (0, 0));
}

#[test]
fn update_follows_the_strongest_reading() {
    let mut left = lit(10, 10, &[(75, 900_000)]);
    let mut p = Particle::new(5_500_000, 5_500_000, 0);
    let b = bearings_for(&p);
    p.update_with(&mut left, &b, 0);
    assert_eq!(p.heading_angle(), -TURN_ANGLE);
    assert_eq!((p.position().x, p.position().y), (6_693_243, 6_693_243));

    let mut right = lit(10, 10, &[(35, 900_000)]);
    let mut q = Particle::new(5_500_000, 5_500_000, 0);
    q.update_with(&mut right, &b, UNIT - 1);
    assert_eq!(q.heading_angle(), TURN_ANGLE);
    assert_eq!((q.position().x, q.position().y), (6_693_243, 4_306_757));

    let mut ahead = lit(10, 10, &[(57, 900_000), (35, 1)]);
    let mut r = Particle::new(5_500_000, 5_500_000, 0);
    r.update_with(&mut ahead, &b, UNIT - 1);
    assert_eq!(r.heading_angle(), 0);
    assert_eq!((r.position().x, r.position().y), (7_187_500, 5_500_000));
}

#[test]
fn update_deposits_where_the_agent_stood() {
    let mut g = Grid::new(10, 10);
    let mut p = Particle::new(5_500_000, 5_500_000, 0);
    p.set_color([255, 128, 0]);
    let b = bearings_for(&p);
    p.update_with(&mut g, &b, 0);
    for (i, c) in g.snapshot().iter().enumerate() {
        let v = [c.channel(0), c.channel(1), c.channel(2)];
        if i == 55 {
            assert_eq!(v, [310_000, 155_607, 0]);
        } else {
            assert_eq!(v, [0, 0, 0]);
        }
    }
    assert_eq!(p.heading_angle(), TURN_ANGLE);
}

#[test]
fn update_senses_before_it_deposits() {
    let mut g = Grid::new(10, 10);
    let mut p = Particle::new(5_500_000, 5_900_000, 0);
    p.tune(HEADING_DISTANCE, SENSE_ANGLE, 400_000, TURN_ANGLE);
    let b = bearings_for(&p);
    let r = p.sense(&g, &b);
    assert_eq!((r.left, r.center, r.right), (0, 0, 0));
    p.update_with(&mut g, &b, UNIT - 1);
    assert_eq!(p.heading_angle(), -TURN_ANGLE);
    assert_eq!(g.cell_at(5, 5).channel(0), 310_000);

    let mut q = Particle::new(5_500_000, 5_900_000, 0);
    q.tune(HEADING_DISTANCE, SENSE_ANGLE, 400_000, TURN_ANGLE);
    let after = q.sense(&g, &b);
    assert_eq!((after.left, after.center, after.right), (0, 310_000, 310_000));
}

#[test]
fn update_draws_a_sample_only_for_a_tie() {
    let mut rng = RandomSource::seeded(5);
    let mut lefts = 0;
    let mut rights = 0;
    for _ in 0..200 {
        let mut g = Grid::new(10, 10);
        let mut p = Particle::new(5_500_000, 5_500_000, 0);
        let b = bearings_for(&p);
        p.update(&mut g, &b, &mut rng);
        if p.heading_angle() == -TURN_ANGLE {
            lefts += 1;
        } else {
            assert_eq!(p.heading_angle(), TURN_ANGLE);
            rights += 1;
        }
        assert_eq!(g.cell_at(5, 5).channel(0), 310_000);
    }
    assert!(lefts > 50 && rights > 50);

    let mut a = RandomSource::seeded(17);
    let mut b = RandomSource::seeded(17);
    let mut g = lit(10, 10, &[(75, 900_000)]);
    let mut p = Particle::new(5_500_000, 5_500_000, 0);
    let bearings = bearings_for(&p);
    p.update(&mut g, &bearings, &mut a);
    assert_eq!(p.heading_angle(), -TURN_ANGLE);
    assert_eq!(a.sample(), b.sample());
}

#[test]
fn random_particle_stands_on_the_grid() {
    let mut rng = RandomSource::seeded(3);
    let mut xs = Vec::new();
    for _ in 0..500 {
        let p = Particle::random(7, 3, &mut rng);
        let at = p.position();
        assert!(0 <= at.x && at.x < 7_000_000);
        assert!(0 <= at.y && at.y < 3_000_000);
        assert!(0 <= p.heading_angle() && p.heading_angle() < TAU);
        assert_eq!(p.heading_distance(), HEADING_DISTANCE);
        assert_eq!(*p.color(), [UNIT, UNIT, UNIT]);
        xs.push(at.x);
    }
    assert!(xs.iter().any(|x| *x != xs[0]));
    assert!(xs.iter().any(|x| *x > 3_500_000));
    assert!(xs.iter().any(|x| *x < 3_500_000));
}

#[test]
fn centred_particle_stands_at_the_spread_radius() {
    let east = Direction::new(UNIT, 0).unwrap();
    let p = Particle::center(800, 800, 360_000_000, 0, 0, east);
    assert_eq!((p.position().x, p.position().y), (760_000_000, 400_000_000));

    let q = Particle::center(800, 800, 360_000_000, 400_000, 0, east);
    assert_eq!((q.position().x, q.position().y), (652_000_000, 400_000_000));

    let r = Particle::center(800, 800, 360_000_000, -400_000, 0, east);
    assert_eq!((r.position().x, r.position().y), (652_000_000, 400_000_000));

    let s = Particle::center(800, 800, 360_000_000, UNIT, 0, east);
    assert_eq!((s.position().x, s.position().y), (490_000_000, 400_000_000));

    let t = Particle::center(800, 800, 360_000_000, -2 * UNIT, 0, east);
    assert_eq!((t.position().x, t.position().y), (220_000_000, 400_000_000));
}

#[test]
fn centred_particle_takes_its_heading_and_direction() {
    let a: i64 = 2_094_395;
    let p = Particle::center(801, 601, 100_000_000, 0, a, towards(a));
    assert_eq!(p.heading_angle(), a);
    assert_eq!((p.position().x, p.position().y), (350_000_000, 386_602_500));
    assert_eq!(p.heading_distance(), HEADING_DISTANCE);
    assert_eq!(*p.color(), [UNIT, UNIT, UNIT]);
}
