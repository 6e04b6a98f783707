//! One agent of the swarm and the rule by which it senses, turns, deposits
//! and moves.

use crate::cell::{concentration_of, levels, valid_channels, CHANNELS};
use crate::fixed::{clamped, lemma_mapped_between, map_range, mapped, UNIT};
use crate::geometry::{
    along, component, lemma_component_bound, lemma_wrap_index_in_range, lemma_wrapped_once_on_side,
    point_index, step_from, stepped, valid_side, wrap_once, wrapped_once, Direction, Point,
    MAX_REACH,
};
use crate::grid::{field_after_deposit, Field, Grid};
use crate::random::RandomSource;
use vstd::prelude::*;

verus! {

/// The distance that an agent made by `Particle::new` covers per tick.
pub const HEADING_DISTANCE: i64 = 1_687_500;

/// The angle between the heading of such an agent and each of its two outer
/// sensors, in millionths of a radian.
pub const SENSE_ANGLE: i64 = 1_570_796;

/// The distance from such an agent to its sensors.
pub const SENSE_DISTANCE: i64 = 1_875_000;

/// The angle by which such an agent turns, in millionths of a radian.
pub const TURN_ANGLE: i64 = 785_398;

/// A full turn, in millionths of a radian.
pub const TAU: i64 = 6_283_185;

/// The sample above which a tie is broken to the left.
pub const HALF: i64 = 500_000;

/// What an agent does to its heading in one tick.
#[derive(Clone, Copy, Debug, PartialEq, Eq, Structural)]
pub enum Turn {
    /// The heading decreases by the turn angle.
    Left,
    /// The heading stays.
    Straight,
    /// The heading increases by the turn angle.
    Right,
}

/// The directions that an agent needs for one tick, as cosine and sine of
/// five angles about its heading.
#[derive(Clone, Copy, Debug)]
pub struct Bearings {
    /// The direction of the heading less the sense angle.
    pub sense_left: Direction,
    /// The direction of the heading.
    pub ahead: Direction,
    /// The direction of the heading plus the sense angle.
    pub sense_right: Direction,
    /// The direction of the heading less the turn angle.
    pub turn_left: Direction,
    /// The direction of the heading plus the turn angle.
    pub turn_right: Direction,
}

impl Bearings {
    /// Each of the five directions is well formed.
    pub open spec fn wf(&self) -> bool {
        &&& self.sense_left.wf()
        &&& self.ahead.wf()
        &&& self.sense_right.wf()
        &&& self.turn_left.wf()
        &&& self.turn_right.wf()
    }

    /// Whether each of the five directions is well formed.
    pub fn is_valid(&self) -> (r: bool)
        ensures
            r == self.wf(),
    {
        self.sense_left.is_valid() && self.ahead.is_valid() && self.sense_right.is_valid()
            && self.turn_left.is_valid() && self.turn_right.is_valid()
    }

    /// The direction in which an agent moves after a turn.
    pub open spec fn course(&self, turn: Turn) -> Direction {
        match turn {
            Turn::Left => self.turn_left,
            Turn::Straight => self.ahead,
            Turn::Right => self.turn_right,
        }
    }
}

/// The five angles about its heading whose directions an agent needs for one
/// tick, in millionths of a radian.
#[derive(Clone, Copy, Debug, PartialEq, Eq, Structural)]
pub struct Angles {
    /// The heading less the sense angle.
    pub sense_left: i64,
    /// The heading.
    pub ahead: i64,
    /// The heading plus the sense angle.
    pub sense_right: i64,
    /// The heading less the turn angle: the heading after a turn to the left.
    pub turn_left: i64,
    /// The heading plus the turn angle: the heading after a turn to the right.
    pub turn_right: i64,
}

/// The concentrations that the three sensors of an agent read.
#[derive(Clone, Copy, Debug)]
pub struct Readings {
    pub left: i64,
    pub center: i64,
    pub right: i64,
}

/// The mathematical content of a particle.
pub struct Agent {
    pub x: int,
    pub y: int,
    pub heading: int,
    pub step_distance: int,
    pub sense_angle: int,
    pub sense_distance: int,
    pub turn_angle: int,
    pub color: Seq<int>,
}

impl Agent {
    /// The colour weighs between zero and one on each channel, and the two
    /// distances are within reach.
    pub open spec fn wf(self) -> bool {
        &&& valid_channels(self.color)
        &&& -MAX_REACH <= self.step_distance <= MAX_REACH
        &&& -MAX_REACH <= self.sense_distance <= MAX_REACH
        &&& i64::MIN <= self.heading <= i64::MAX
        &&& i64::MIN <= self.turn_angle <= i64::MAX
    }

    /// The agent stands on a grid of the given sides, and one step takes it
    /// no further than once round.
    pub open spec fn on(self, width: int, height: int) -> bool {
        &&& 0 <= self.x < width * UNIT
        &&& 0 <= self.y < height * UNIT
        &&& -width * UNIT <= self.step_distance <= width * UNIT
        &&& -height * UNIT <= self.step_distance <= height * UNIT
    }
}

/// The turn that the three readings and a sample of the unit interval call
/// for. The order of the tests matters: a strictly strongest left wins, then
/// a strictly strongest right; only then does a tie between left and right
/// take the sample, to the left if it is above one half; in every other case
/// the agent goes straight on.
pub open spec fn steered(left: int, center: int, right: int, sample: int) -> Turn {
    if left > center && left > right {
        Turn::Left
    } else if right > center && right > left {
        Turn::Right
    } else if left == right {
        if sample > HALF {
            Turn::Left
        } else {
            Turn::Right
        }
    } else {
        Turn::Straight
    }
}

/// Whether the turn depends on the sample.
pub open spec fn tied(left: int, center: int, right: int) -> bool {
    !(left > center && left > right) && !(right > center && right > left) && left == right
}

/// The concentration of the cell under a point.
pub open spec fn reading(f: Field, p: (int, int)) -> int {
    concentration_of(f.cells[point_index(p.0, p.1, f.width, f.height)])
}

/// What the sensor of an agent reads in the given direction.
pub open spec fn sensed(a: Agent, f: Field, dir: Direction) -> int {
    reading(f, stepped(a.x, a.y, a.sense_distance, dir))
}

/// The turn that an agent takes on a field.
pub open spec fn chosen_turn(a: Agent, f: Field, b: Bearings, sample: int) -> Turn {
    steered(sensed(a, f, b.sense_left), sensed(a, f, b.ahead), sensed(a, f, b.sense_right), sample)
}

/// The heading after a turn. It stops at the ends of the machine range.
pub open spec fn heading_after(heading: int, turn_angle: int, turn: Turn) -> int {
    match turn {
        Turn::Left => clamped(heading - turn_angle, i64::MIN as int, i64::MAX as int),
        Turn::Straight => heading,
        Turn::Right => clamped(heading + turn_angle, i64::MIN as int, i64::MAX as int),
    }
}

/// The agent after it has turned and moved on a torus of the given sides:
/// one step along its new course, then each coordinate that left the grid
/// brought back by one translation.
pub open spec fn advanced(a: Agent, width: int, height: int, b: Bearings, turn: Turn) -> Agent {
    let p = stepped(a.x, a.y, a.step_distance, b.course(turn));
    Agent {
        x: wrapped_once(p.0, width * UNIT),
        y: wrapped_once(p.1, height * UNIT),
        heading: heading_after(a.heading, a.turn_angle, turn),
        step_distance: a.step_distance,
        sense_angle: a.sense_angle,
        sense_distance: a.sense_distance,
        turn_angle: a.turn_angle,
        color: a.color,
    }
}

/// The agent after one tick on a field.
pub open spec fn agent_after(a: Agent, f: Field, b: Bearings, sample: int) -> Agent {
    advanced(a, f.width, f.height, b, chosen_turn(a, f, b, sample))
}

/// The field after an agent has deposited where it stands.
pub open spec fn field_after(f: Field, a: Agent) -> Field {
    field_after_deposit(f, a.x, a.y, a.color)
}

/// Decides the turn from three readings and a sample of the unit interval.
pub fn steer(readings: &Readings, sample: i64) -> (turn: Turn)
    ensures
        turn == steered(
            readings.left as int,
            readings.center as int,
            readings.right as int,
            sample as int,
        ),
{
    if readings.left > readings.center && readings.left > readings.right {
        Turn::Left
    } else if readings.right > readings.center && readings.right > readings.left {
        Turn::Right
    } else if readings.left == readings.right {
        if sample > HALF {
            Turn::Left
        } else {
            Turn::Right
        }
    } else {
        Turn::Straight
    }
}

/// Whether the turn that the readings call for depends on a sample.
pub fn is_tied(readings: &Readings) -> (r: bool)
    ensures
        r == tied(readings.left as int, readings.center as int, readings.right as int),
{
    !(readings.left > readings.center && readings.left > readings.right) && !(readings.right
        > readings.center && readings.right > readings.left) && readings.left == readings.right
}

/// Where the readings are not tied the sample does not matter, and where
/// they are it alone decides.
pub proof fn lemma_steered_sample(left: int, center: int, right: int, s: int, t: int)
    ensures
        !tied(left, center, right) ==> steered(left, center, right, s) == steered(
            left,
            center,
            right,
            t,
        ),
        tied(left, center, right) ==> steered(left, center, right, s) == (if s > HALF {
            Turn::Left
        } else {
            Turn::Right
        }),
{
}

/// The heading after a turn.
pub fn turn_heading(heading: i64, turn_angle: i64, turn: Turn) -> (r: i64)
    ensures
        r == heading_after(heading as int, turn_angle as int, turn),
{
    match turn {
        Turn::Left => match heading.checked_sub(turn_angle) {
            Some(h) => h,
            None => if turn_angle > 0 {
                i64::MIN
            } else {
                i64::MAX
            },
        },
        Turn::Straight => heading,
        Turn::Right => match heading.checked_add(turn_angle) {
            Some(h) => h,
            None => if turn_angle > 0 {
                i64::MAX
            } else {
                i64::MIN
            },
        },
    }
}

/// A colour that weighs one on every channel.
pub open spec fn full_color() -> Seq<int> {
    Seq::new(CHANNELS as nat, |i: int| UNIT as int)
}

/// The agent that `Particle::new` makes.
pub open spec fn fresh_agent(x: int, y: int, a: int) -> Agent {
    Agent {
        x,
        y,
        heading: a,
        step_distance: HEADING_DISTANCE as int,
        sense_angle: SENSE_ANGLE as int,
        sense_distance: SENSE_DISTANCE as int,
        turn_angle: TURN_ANGLE as int,
        color: full_color(),
    }
}

/// The weight between zero and one that stands for a colour component
/// between 0 and 255.
pub open spec fn weight_of(component: u8) -> int {
    mapped(component as int, 0, 255, 0, UNIT as int)
}

/// The weights that stand for the three components of a colour.
pub open spec fn weights_of(color: [u8; 3]) -> Seq<int> {
    Seq::new(CHANNELS as nat, |i: int| weight_of(color[i]))
}

/// The largest magnitude of the spread that `Particle::center` accepts.
pub const MAX_SPREAD: i64 = 100_000_000;

/// The distance from the middle of the grid at which `Particle::center`
/// places an agent: the full radius for a spread of zero, a quarter of it for
/// a spread of one, and on along the same line beyond.
pub open spec fn spread_radius(radius: int, spread: int) -> int {
    mapped(UNIT - vstd::math::abs(spread), 0, UNIT as int, radius / 4, radius)
}

/// The agent that `Particle::center` makes.
pub open spec fn centered_agent(
    width: int,
    height: int,
    radius: int,
    spread: int,
    a: int,
    dir: Direction,
) -> Agent {
    let r = spread_radius(radius, spread);
    fresh_agent(
        (width / 2) * UNIT + component(r, dir.cos as int),
        (height / 2) * UNIT + component(r, dir.sin as int),
        a,
    )
}

/// An agent: a position on the canvas, a heading, the parameters of its
/// motion and the colour of its deposit.
#[derive(Clone, Copy, Debug)]
pub struct Particle {
    pos: Point,
    heading_angle: i64,
    heading_distance: i64,
    sense_angle: i64,
    sense_distance: i64,
    turn_angle: i64,
    color: [i64; 3],
}

impl View for Particle {
    type V = Agent;

    closed spec fn view(&self) -> Agent {
        Agent {
            x: self.pos.x as int,
            y: self.pos.y as int,
            heading: self.heading_angle as int,
            step_distance: self.heading_distance as int,
            sense_angle: self.sense_angle as int,
            sense_distance: self.sense_distance as int,
            turn_angle: self.turn_angle as int,
            color: levels(self.color),
        }
    }
}

impl Particle {
    /// The particle's content is a well-formed agent.
    pub open spec fn wf(&self) -> bool {
        self@.wf()
    }

    /// An agent at canvas position `(x, y)` with heading `a`, with the
    /// default parameters of motion and a colour of full weight.
    pub fn new(x: i64, y: i64, a: i64) -> (p: Particle)
        ensures
            p@ == fresh_agent(x as int, y as int, a as int),
            p.wf(),
    {
        let p = Particle {
            pos: Point { x, y },
            heading_angle: a,
            heading_distance: HEADING_DISTANCE,
            sense_angle: SENSE_ANGLE,
            sense_distance: SENSE_DISTANCE,
            turn_angle: TURN_ANGLE,
            color: [UNIT, UNIT, UNIT],
        };
        assert(p@.color =~= full_color());
        p
    }

    /// An agent at a uniformly random position of a grid of the given sides,
    /// with a uniformly random heading within one full turn.
    pub fn random(width: usize, height: usize, rng: &mut RandomSource) -> (p: Particle)
        requires
            valid_side(width as int),
            valid_side(height as int),
        ensures
            p@ == fresh_agent(p@.x, p@.y, p@.heading),
            0 <= p@.x < width * UNIT,
            0 <= p@.y < height * UNIT,
            0 <= p@.heading < TAU,
            p.wf(),
    {
        let x: i64 = rng.range(0, width as i64 * UNIT);
        let y: i64 = rng.range(0, height as i64 * UNIT);
        Particle::new(x, y, rng.range(0, TAU))
    }

    /// An agent of a cluster about the middle of a grid of the given sides.
    /// It stands in direction `dir` from the middle, which is the direction
    /// of its heading `a`, at a distance that `spread`, a sample of a normal
    /// distribution about zero, takes from `radius` towards a quarter of it.
    pub fn center(
        width: usize,
        height: usize,
        radius: i64,
        spread: i64,
        a: i64,
        dir: Direction,
    ) -> (p: Particle)
        requires
            valid_side(width as int),
            valid_side(height as int),
            0 <= radius <= MAX_REACH,
            -MAX_SPREAD <= spread <= MAX_SPREAD,
            dir.wf(),
        ensures
            p@ == centered_agent(
                width as int,
                height as int,
                radius as int,
                spread as int,
                a as int,
                dir,
            ),
            p.wf(),
    {
        let v: i64 = if spread < 0 {
            -spread
        } else {
            spread
        };
        let near_edge: i64 = radius / 4;
        proof {
            lemma_spread_radius_bound(radius as int, spread as int);
            assert(-3_300_000_000_000_000_000 <= (UNIT - v) * (radius - near_edge)
                <= 3_300_000_000_000_000_000) by (nonlinear_arith)
                requires
                    0 <= v <= 100_000_000,
                    UNIT == 1_000_000,
                    0 <= radius - near_edge <= 32_768_000_000,
            ;
        }
        let r: i64 = map_range(UNIT - v, 0, UNIT, near_edge, radius);
        proof {
            lemma_component_bound(r as int, dir.cos as int);
            lemma_component_bound(r as int, dir.sin as int);
        }
        let dx: i64 = along(r, dir.cos);
        let dy: i64 = along(r, dir.sin);
        Particle::new((width / 2) as i64 * UNIT + dx, (height / 2) as i64 * UNIT + dy, a)
    }

    /// The position on the canvas.
    pub fn position(&self) -> (p: Point)
        ensures
            p.x == self@.x,
            p.y == self@.y,
    {
        self.pos
    }

    /// The heading, in millionths of a radian.
    pub fn heading_angle(&self) -> (a: i64)
        ensures
            a == self@.heading,
    {
        self.heading_angle
    }

    /// The distance covered per tick.
    pub fn heading_distance(&self) -> (d: i64)
        ensures
            d == self@.step_distance,
    {
        self.heading_distance
    }

    /// The angle between the heading and each outer sensor.
    pub fn sense_angle(&self) -> (a: i64)
        ensures
            a == self@.sense_angle,
    {
        self.sense_angle
    }

    /// The distance to the sensors.
    pub fn sense_distance(&self) -> (d: i64)
        ensures
            d == self@.sense_distance,
    {
        self.sense_distance
    }

    /// The angle of one turn.
    pub fn turn_angle(&self) -> (a: i64)
        ensures
            a == self@.turn_angle,
    {
        self.turn_angle
    }

    /// The weights of the deposit on the three channels.
    pub fn color(&self) -> (c: &[i64; 3])
        ensures
            levels(*c) == self@.color,
    {
        &self.color
    }

    /// The angles whose directions the agent needs for its next tick. Each
    /// stops at the ends of the machine range, as the heading itself does.
    pub fn angles(&self) -> (a: Angles)
        ensures
            a.sense_left == heading_after(self@.heading, self@.sense_angle, Turn::Left),
            a.ahead == self@.heading,
            a.sense_right == heading_after(self@.heading, self@.sense_angle, Turn::Right),
            a.turn_left == heading_after(self@.heading, self@.turn_angle, Turn::Left),
            a.turn_right == heading_after(self@.heading, self@.turn_angle, Turn::Right),
    {
        Angles {
            sense_left: turn_heading(self.heading_angle, self.sense_angle, Turn::Left),
            ahead: self.heading_angle,
            sense_right: turn_heading(self.heading_angle, self.sense_angle, Turn::Right),
            turn_left: turn_heading(self.heading_angle, self.turn_angle, Turn::Left),
            turn_right: turn_heading(self.heading_angle, self.turn_angle, Turn::Right),
        }
    }

    /// Whether the agent is well formed and stands on a grid of the given
    /// sides.
    pub fn fits(&self, width: usize, height: usize) -> (r: bool)
        requires
            valid_side(width as int),
            valid_side(height as int),
        ensures
            r == (self.wf() && self@.on(width as int, height as int)),
    {
        let w: i64 = width as i64 * UNIT;
        let h: i64 = height as i64 * UNIT;
        assert(levels(self.color)[0] == self.color[0] && levels(self.color)[1] == self.color[1]
            && levels(self.color)[2] == self.color[2]);
        0 <= self.color[0] && self.color[0] <= UNIT && 0 <= self.color[1] && self.color[1] <= UNIT
            && 0 <= self.color[2] && self.color[2] <= UNIT && -MAX_REACH <= self.sense_distance
            && self.sense_distance <= MAX_REACH && 0 <= self.pos.x && self.pos.x < w && 0
            <= self.pos.y && self.pos.y < h && -w <= self.heading_distance && self.heading_distance
            <= w && -h <= self.heading_distance && self.heading_distance <= h
    }

    /// Sets the colour of the deposit from three components between 0 and
    /// 255.
    pub fn set_color(&mut self, color: [u8; 3])
        ensures
            final(self)@.color == weights_of(color),
            valid_channels(final(self)@.color),
            final(self)@.x == old(self)@.x,
            final(self)@.y == old(self)@.y,
            final(self)@.heading == old(self)@.heading,
            final(self)@.step_distance == old(self)@.step_distance,
            final(self)@.sense_angle == old(self)@.sense_angle,
            final(self)@.sense_distance == old(self)@.sense_distance,
            final(self)@.turn_angle == old(self)@.turn_angle,
    {
        proof {
            lemma_mapped_between(color[0] as int, 0, 255, 0, UNIT as int);
            lemma_mapped_between(color[1] as int, 0, 255, 0, UNIT as int);
            lemma_mapped_between(color[2] as int, 0, 255, 0, UNIT as int);
            assert(color[0] * UNIT <= 255_000_000 && color[1] * UNIT <= 255_000_000 && color[2]
                * UNIT <= 255_000_000) by (nonlinear_arith)
                requires
                    color[0] <= 255,
                    color[1] <= 255,
                    color[2] <= 255,
                    UNIT == 1_000_000,
            ;
        }
        self.color = [
            map_range(color[0] as i64, 0, 255, 0, UNIT),
            map_range(color[1] as i64, 0, 255, 0, UNIT),
            map_range(color[2] as i64, 0, 255, 0, UNIT),
        ];
    }

    /// Sets the parameters of motion.
    pub fn tune(&mut self, step_distance: i64, sense_angle: i64, sense_distance: i64, turn_angle: i64)
        ensures
            final(self)@.step_distance == step_distance,
            final(self)@.sense_angle == sense_angle,
            final(self)@.sense_distance == sense_distance,
            final(self)@.turn_angle == turn_angle,
            final(self)@.x == old(self)@.x,
            final(self)@.y == old(self)@.y,
            final(self)@.heading == old(self)@.heading,
            final(self)@.color == old(self)@.color,
    {
        self.heading_distance = step_distance;
        self.sense_angle = sense_angle;
        self.sense_distance = sense_distance;
        self.turn_angle = turn_angle;
    }

    /// Reads the field at the three sensor points: the sense distance away
    /// from the agent to the left of, along and to the right of its heading.
    pub fn sense(&self, grid: &Grid, bearings: &Bearings) -> (readings: Readings)
        requires
            self.wf(),
            grid.wf(),
            self@.on(grid@.width, grid@.height),
            bearings.wf(),
        ensures
            readings.left == sensed(self@, grid@, bearings.sense_left),
            readings.center == sensed(self@, grid@, bearings.ahead),
            readings.right == sensed(self@, grid@, bearings.sense_right),
    {
        let width: usize = grid.width();
        let height: usize = grid.height();
        proof {
            lemma_on_within_reach(self@, width as int, height as int);
        }
        let left_pt = step_from(self.pos, self.sense_distance, bearings.sense_left, width, height);
        let center_pt = step_from(self.pos, self.sense_distance, bearings.ahead, width, height);
        let right_pt = step_from(self.pos, self.sense_distance, bearings.sense_right, width, height);

        let left_cell = grid.cell_at_pt(left_pt);
        let center_cell = grid.cell_at_pt(center_pt);
        let right_cell = grid.cell_at_pt(right_pt);

        Readings {
            left: left_cell.concentration(),
            center: center_cell.concentration(),
            right: right_cell.concentration(),
        }
    }

    /// Turns, moves one step along the new course and wraps the position
    /// back onto a torus of the given sides.
    pub fn advance(&mut self, turn: Turn, bearings: &Bearings, width: usize, height: usize)
        requires
            old(self).wf(),
            valid_side(width as int),
            valid_side(height as int),
            old(self)@.on(width as int, height as int),
            bearings.wf(),
        ensures
            final(self)@ == advanced(old(self)@, width as int, height as int, *bearings, turn),
            final(self).wf(),
            final(self)@.on(width as int, height as int),
    {
        let course: Direction = match turn {
            Turn::Left => bearings.turn_left,
            Turn::Straight => bearings.ahead,
            Turn::Right => bearings.turn_right,
        };
        proof {
            lemma_on_within_reach(self@, width as int, height as int);
            lemma_advanced_on(self@, width as int, height as int, *bearings, turn);
        }
        self.heading_angle = turn_heading(self.heading_angle, self.turn_angle, turn);
        let target = step_from(self.pos, self.heading_distance, course, width, height);
        let w: i64 = width as i64 * UNIT;
        let h: i64 = height as i64 * UNIT;
        self.pos = Point { x: wrap_once(target.x, w), y: wrap_once(target.y, h) };
    }

    /// One tick of the agent with a given sample for the tie: sense, turn,
    /// deposit at the position before the move, move, wrap.
    pub fn update_with(&mut self, grid: &mut Grid, bearings: &Bearings, sample: i64)
        requires
            old(self).wf(),
            old(grid).wf(),
            old(self)@.on(old(grid)@.width, old(grid)@.height),
            bearings.wf(),
        ensures
            final(self)@ == agent_after(old(self)@, old(grid)@, *bearings, sample as int),
            final(grid)@ == field_after(old(grid)@, old(self)@),
            final(self).wf(),
            final(grid).wf(),
            final(self)@.on(final(grid)@.width, final(grid)@.height),
    {
        let readings = self.sense(grid, bearings);
        let turn = steer(&readings, sample);
        grid.deposit_at(self.pos, &self.color);
        self.advance(turn, bearings, grid.width(), grid.height());
    }

    /// One tick of the agent: sense, turn, deposit at the position before
    /// the move, move, wrap. A tie between the left and the right reading is
    /// broken by a sample drawn from `rng`; no sample is drawn otherwise.
    pub fn update(&mut self, grid: &mut Grid, bearings: &Bearings, rng: &mut RandomSource)
        requires
            old(self).wf(),
            old(grid).wf(),
            old(self)@.on(old(grid)@.width, old(grid)@.height),
            bearings.wf(),
        ensures
            exists|sample: int|
                0 <= sample < UNIT && final(self)@ == #[trigger] agent_after(
                    old(self)@,
                    old(grid)@,
                    *bearings,
                    sample,
                ),
            final(grid)@ == field_after(old(grid)@, old(self)@),
            final(self).wf(),
            final(grid).wf(),
            final(self)@.on(final(grid)@.width, final(grid)@.height),
    {
        let readings = self.sense(grid, bearings);
        let sample: i64 = if is_tied(&readings) {
            rng.sample()
        } else {
            0
        };
        let turn = steer(&readings, sample);
        grid.deposit_at(self.pos, &self.color);
        self.advance(turn, bearings, grid.width(), grid.height());
        assert(self@ == agent_after(old(self)@, old(grid)@, *bearings, sample as int));
    }
}

/// An agent on a grid is within reach of the origin.
pub proof fn lemma_on_within_reach(a: Agent, width: int, height: int)
    requires
        valid_side(width),
        valid_side(height),
        a.on(width, height),
    ensures
        0 <= a.x < MAX_REACH,
        0 <= a.y < MAX_REACH,
        0 < width * UNIT <= MAX_REACH,
        0 < height * UNIT <= MAX_REACH,
{
    assert(0 < width * UNIT <= MAX_REACH) by (nonlinear_arith)
        requires
            0 < width <= 32_768,
            UNIT == 1_000_000,
            MAX_REACH == 32_768_000_000,
    ;
    assert(0 < height * UNIT <= MAX_REACH) by (nonlinear_arith)
        requires
            0 < height <= 32_768,
            UNIT == 1_000_000,
            MAX_REACH == 32_768_000_000,
    ;
}

/// An agent that stands on the grid still stands on it after it has turned
/// and moved, and its position is the point it stepped to, taken modulo the
/// sides of the grid.
pub proof fn lemma_advanced_on(a: Agent, width: int, height: int, b: Bearings, turn: Turn)
    requires
        a.wf(),
        valid_side(width),
        valid_side(height),
        a.on(width, height),
        b.wf(),
    ensures
        advanced(a, width, height, b, turn).wf(),
        advanced(a, width, height, b, turn).on(width, height),
        advanced(a, width, height, b, turn).x == stepped(
            a.x,
            a.y,
            a.step_distance,
            b.course(turn),
        ).0 % (width * UNIT),
        advanced(a, width, height, b, turn).y == stepped(
            a.x,
            a.y,
            a.step_distance,
            b.course(turn),
        ).1 % (height * UNIT),
{
    let dir = b.course(turn);
    lemma_on_within_reach(a, width, height);
    lemma_component_bound(a.step_distance, dir.cos as int);
    lemma_component_bound(a.step_distance, dir.sin as int);
    let p = stepped(a.x, a.y, a.step_distance, dir);
    lemma_wrapped_once_on_side(p.0, width * UNIT);
    lemma_wrapped_once_on_side(p.1, height * UNIT);
}

/// The distance at which `Particle::center` places an agent stays within a
/// hundred radii of the middle.
pub proof fn lemma_spread_radius_bound(radius: int, spread: int)
    requires
        0 <= radius <= MAX_REACH,
        -MAX_SPREAD <= spread <= MAX_SPREAD,
    ensures
        -100 * radius <= spread_radius(radius, spread) <= radius,
        spread_radius(radius, 0) == radius,
{
    let v = vstd::math::abs(spread);
    let rise = radius - radius / 4;
    let n = (UNIT - v) * rise;
    assert((-100 * rise) * UNIT <= n <= rise * UNIT) by (nonlinear_arith)
        requires
            0 <= v <= 100 * UNIT,
            rise >= 0,
            n == (UNIT - v) * rise,
    ;
    crate::fixed::lemma_quotient_between(n, UNIT as int, -100 * rise, rise);
    lemma_mapped_between(UNIT as int, 0, UNIT as int, radius / 4, radius);
}

/// Whether every cell of a field has the same concentration.
pub open spec fn even(f: Field) -> bool {
    forall|i: int, j: int|
        0 <= i < f.cells.len() && 0 <= j < f.cells.len() ==> concentration_of(#[trigger] f.cells[i])
            == concentration_of(#[trigger] f.cells[j])
}

/// On a field that is the same everywhere the three readings tie, so the
/// sample alone decides the turn: an agent turns left or right at every
/// tick, never goes straight on, and short of the ends of the machine range
/// its heading changes by exactly the turn angle.
pub proof fn lemma_even_field_turn(a: Agent, f: Field, b: Bearings, sample: int)
    requires
        f.wf(),
        even(f),
    ensures
        chosen_turn(a, f, b, sample) == (if sample > HALF {
            Turn::Left
        } else {
            Turn::Right
        }),
        sample > HALF && i64::MIN <= a.heading - a.turn_angle <= i64::MAX ==> agent_after(
            a,
            f,
            b,
            sample,
        ).heading == a.heading - a.turn_angle,
        sample <= HALF && i64::MIN <= a.heading + a.turn_angle <= i64::MAX ==> agent_after(
            a,
            f,
            b,
            sample,
        ).heading == a.heading + a.turn_angle,
{
    let l = stepped(a.x, a.y, a.sense_distance, b.sense_left);
    let c = stepped(a.x, a.y, a.sense_distance, b.ahead);
    let r = stepped(a.x, a.y, a.sense_distance, b.sense_right);
    lemma_wrap_index_in_range(
        crate::geometry::cell_of(l.0),
        crate::geometry::cell_of(l.1),
        f.width,
        f.height,
    );
    lemma_wrap_index_in_range(
        crate::geometry::cell_of(c.0),
        crate::geometry::cell_of(c.1),
        f.width,
        f.height,
    );
    lemma_wrap_index_in_range(
        crate::geometry::cell_of(r.0),
        crate::geometry::cell_of(r.1),
        f.width,
        f.height,
    );
}

} // verus!
