//! Coordinates on the torus: wrapped cell indices, the two coordinate frames
//! and movement along a direction.

use crate::fixed::{floor_div, floor_mod, quotient, UNIT};
use vstd::arithmetic::div_mod::{
    lemma_fundamental_div_mod, lemma_mod_multiples_vanish, lemma_small_mod,
};
use vstd::prelude::*;

verus! {

/// The largest number of cells along one side of a grid.
pub const MAX_SIDE: usize = 32_768;

/// The largest distance, in millionths of a cell, that one move may cover.
pub const MAX_REACH: i64 = 32_768_000_000;

/// The largest coordinate magnitude that the frame conversions accept.
pub const FAR: i64 = 0x1000_0000_0000_0000;

/// A point of the plane, each coordinate counted in millionths of a cell.
#[derive(Clone, Copy, Debug, PartialEq, Eq, Structural)]
pub struct Point {
    pub x: i64,
    pub y: i64,
}

/// The cosine and sine of an angle, in millionths.
#[derive(Clone, Copy, Debug, PartialEq, Eq, Structural)]
pub struct Direction {
    pub cos: i64,
    pub sin: i64,
}

impl Direction {
    /// Neither component exceeds one in magnitude.
    pub open spec fn wf(&self) -> bool {
        &&& -UNIT <= self.cos <= UNIT
        &&& -UNIT <= self.sin <= UNIT
    }

    /// Builds a direction from its two components, if both lie between minus
    /// one and one.
    pub fn new(cos: i64, sin: i64) -> (r: Option<Direction>)
        ensures
            r is Some <==> (Direction { cos, sin }).wf(),
            r is Some ==> r->0 == (Direction { cos, sin }),
    {
        if -UNIT <= cos && cos <= UNIT && -UNIT <= sin && sin <= UNIT {
            Some(Direction { cos, sin })
        } else {
            None
        }
    }

    /// Whether neither component exceeds one in magnitude.
    pub fn is_valid(&self) -> (r: bool)
        ensures
            r == self.wf(),
    {
        -UNIT <= self.cos && self.cos <= UNIT && -UNIT <= self.sin && self.sin <= UNIT
    }
}

/// Whether a side length is one that a grid may have.
pub open spec fn valid_side(side: int) -> bool {
    0 < side <= MAX_SIDE
}

/// The linear index, row by row, of the cell at column `x` and row `y` of a
/// `w` by `h` torus. Columns and rows of any sign and size are folded onto
/// the grid first.
pub open spec fn wrap_index(x: int, y: int, w: int, h: int) -> int {
    (y % h) * w + (x % w)
}

/// A wrapped index always names a cell of the grid.
pub proof fn lemma_wrap_index_in_range(x: int, y: int, w: int, h: int)
    requires
        w > 0,
        h > 0,
    ensures
        0 <= wrap_index(x, y, w, h) < w * h,
{
    let r: int = y % h;
    let c: int = x % w;
    assert(0 <= r * w + c < w * h) by (nonlinear_arith)
        requires
            0 <= r < h,
            0 <= c < w,
    ;
}

/// Moving by a whole grid width or a whole grid height comes back to the same
/// cell.
pub proof fn lemma_wrap_index_periodic(x: int, y: int, w: int, h: int)
    requires
        w > 0,
        h > 0,
    ensures
        wrap_index(x + w, y, w, h) == wrap_index(x, y, w, h),
        wrap_index(x, y + h, w, h) == wrap_index(x, y, w, h),
{
    lemma_mod_multiples_vanish(1, x, w);
    lemma_mod_multiples_vanish(1, y, h);
}

/// Moving by any number of whole widths and heights comes back to the same
/// cell.
pub proof fn lemma_wrap_index_multiples(x: int, y: int, i: int, j: int, w: int, h: int)
    requires
        w > 0,
        h > 0,
    ensures
        wrap_index(x + i * w, y + j * h, w, h) == wrap_index(x, y, w, h),
{
    lemma_mod_multiples_vanish(i, x, w);
    lemma_mod_multiples_vanish(j, y, h);
    assert(w * i + x == x + i * w) by (nonlinear_arith);
    assert(h * j + y == y + j * h) by (nonlinear_arith);
}

/// A column and a row that lie on the grid are their own wrapped position.
pub proof fn lemma_wrap_index_inside(x: int, y: int, w: int, h: int)
    requires
        0 <= x < w,
        0 <= y < h,
    ensures
        wrap_index(x, y, w, h) == y * w + x,
{
    lemma_small_mod(x as nat, w as nat);
    lemma_small_mod(y as nat, h as nat);
}

/// Every cell index is the wrapped index of its own column and row.
pub proof fn lemma_wrap_index_of_cell(i: int, w: int, h: int)
    requires
        w > 0,
        h > 0,
        0 <= i < w * h,
    ensures
        0 <= i % w < w,
        0 <= i / w < h,
        wrap_index(i % w, i / w, w, h) == i,
{
    lemma_fundamental_div_mod(i, w);
    let q: int = i / w;
    let r: int = i % w;
    assert(0 <= q < h) by (nonlinear_arith)
        requires
            i == w * q + r,
            0 <= r < w,
            0 <= i < w * h,
            w > 0,
    ;
    lemma_wrap_index_inside(r, q, w, h);
    assert(q * w + r == w * q + r) by (nonlinear_arith);
}

/// Converts a column and a row, which may lie off the grid on any side, into
/// the index of the cell they wrap onto.
pub fn inf_coords(x: i64, y: i64, width: usize, height: usize) -> (index: usize)
    requires
        valid_side(width as int),
        valid_side(height as int),
    ensures
        index == wrap_index(x as int, y as int, width as int, height as int),
        index < width * height,
{
    let w: i64 = width as i64;
    let h: i64 = height as i64;
    let ind_x: i64 = floor_mod(x, w);
    let ind_y: i64 = floor_mod(y, h);
    proof {
        lemma_wrap_index_in_range(x as int, y as int, w as int, h as int);
        assert(0 <= ind_y * w <= 32_768 * 32_768) by (nonlinear_arith)
            requires
                0 <= ind_y < h,
                0 < w <= 32_768,
                0 < h <= 32_768,
        ;
    }
    let index: i64 = ind_y * w + ind_x;
    index as usize
}

/// The cell column (or row) under a coordinate: the whole cells below it.
pub open spec fn cell_of(coord: int) -> int {
    coord / (UNIT as int)
}

/// The index of the cell under a point, which may lie off the grid.
pub open spec fn point_index(x: int, y: int, w: int, h: int) -> int {
    wrap_index(cell_of(x), cell_of(y), w, h)
}

/// Converts a point, which may lie off the grid on any side, into the index
/// of the cell it wraps onto.
pub fn index_of_point(loc: Point, width: usize, height: usize) -> (index: usize)
    requires
        valid_side(width as int),
        valid_side(height as int),
    ensures
        index == point_index(loc.x as int, loc.y as int, width as int, height as int),
        index < width * height,
{
    inf_coords(floor_div(loc.x, UNIT), floor_div(loc.y, UNIT), width, height)
}

/// Half the extent of a side, in millionths of a cell.
pub open spec fn half_extent(side: int) -> int {
    side * UNIT / 2
}

/// Half the extent of a side, in millionths of a cell.
pub fn half_side(side: usize) -> (r: i64)
    requires
        valid_side(side as int),
    ensures
        r == half_extent(side as int),
        0 < r <= MAX_REACH / 2,
        2 * r == side * UNIT,
{
    let s: i64 = side as i64;
    s * (UNIT / 2)
}

/// The Cartesian image of a canvas point: the origin moves to the middle of
/// the grid and the vertical axis turns upwards.
pub open spec fn to_cart(x: int, y: int, w: int, h: int) -> (int, int) {
    (x - half_extent(w), half_extent(h) - y)
}

/// The canvas image of a Cartesian point: the origin moves to the top left
/// corner and the vertical axis turns downwards.
pub open spec fn to_canvas(x: int, y: int, w: int, h: int) -> (int, int) {
    (x + half_extent(w), half_extent(h) - y)
}

/// Whether both coordinates are small enough for the frame conversions.
pub open spec fn near(pt: Point) -> bool {
    &&& -FAR <= pt.x <= FAR
    &&& -FAR <= pt.y <= FAR
}

/// Takes a point from the canvas frame to the Cartesian frame.
pub fn canvas_to_cart(pt: Point, width: usize, height: usize) -> (r: Point)
    requires
        valid_side(width as int),
        valid_side(height as int),
        near(pt),
    ensures
        (r.x as int, r.y as int) == to_cart(pt.x as int, pt.y as int, width as int, height as int),
{
    let x: i64 = pt.x - half_side(width);
    let y: i64 = half_side(height) - pt.y;
    Point { x, y }
}

/// Takes a point from the Cartesian frame to the canvas frame.
pub fn cart_to_canvas(pt: Point, width: usize, height: usize) -> (r: Point)
    requires
        valid_side(width as int),
        valid_side(height as int),
        near(pt),
    ensures
        (r.x as int, r.y as int) == to_canvas(pt.x as int, pt.y as int, width as int, height as int),
{
    let x: i64 = pt.x + half_side(width);
    let y: i64 = half_side(height) - pt.y;
    Point { x, y }
}

/// The two frame conversions undo each other.
pub proof fn lemma_frames_round_trip(x: int, y: int, w: int, h: int)
    ensures
        to_canvas(to_cart(x, y, w, h).0, to_cart(x, y, w, h).1, w, h) == (x, y),
        to_cart(to_canvas(x, y, w, h).0, to_canvas(x, y, w, h).1, w, h) == (x, y),
{
}

/// The length of the component along one axis of a step of length `d` in a
/// direction whose component along that axis is `part` millionths.
pub open spec fn component(d: int, part: int) -> int {
    quotient(d * part, UNIT as int)
}

/// The point reached from `curr` by a step of length `d` in direction `dir`.
pub open spec fn moved(x: int, y: int, d: int, dir: Direction) -> (int, int) {
    (x + component(d, dir.cos as int), y + component(d, dir.sin as int))
}

/// A component of a step is no longer than the step.
pub proof fn lemma_component_bound(d: int, part: int)
    requires
        -UNIT <= part <= UNIT,
    ensures
        d >= 0 ==> -d <= component(d, part) <= d,
        d <= 0 ==> d <= component(d, part) <= -d,
        part == 0 ==> component(d, part) == 0,
        part == UNIT ==> component(d, part) == d,
        part == -UNIT ==> component(d, part) == -d,
{
    let u: int = UNIT as int;
    if d >= 0 {
        assert((-d) * u <= d * part <= d * u) by (nonlinear_arith)
            requires
                d >= 0,
                -u <= part <= u,
        ;
        crate::fixed::lemma_quotient_between(d * part, u, -d, d);
    } else {
        assert(d * u <= d * part <= (-d) * u) by (nonlinear_arith)
            requires
                d <= 0,
                -u <= part <= u,
        ;
        crate::fixed::lemma_quotient_between(d * part, u, d, -d);
    }
    if part == 0 {
        assert(d * part == 0 * u) by (nonlinear_arith)
            requires
                part == 0,
        ;
        crate::fixed::lemma_quotient_between(d * part, u, 0, 0);
    }
    if part == u {
        crate::fixed::lemma_quotient_between(d * part, u, d, d);
    }
    if part == -u {
        assert(d * part == (-d) * u) by (nonlinear_arith)
            requires
                part == -u,
        ;
        crate::fixed::lemma_quotient_between(d * part, u, -d, -d);
    }
}

/// The largest length whose components `along` can compute.
pub const MAX_LENGTH: i64 = 9_000_000_000_000;

/// The component along one axis of a step of length `d`, given the component
/// of its direction along that axis.
pub fn along(d: i64, part: i64) -> (r: i64)
    requires
        -MAX_LENGTH <= d <= MAX_LENGTH,
        -UNIT <= part <= UNIT,
    ensures
        r == component(d as int, part as int),
{
    assert(-9_000_000_000_000_000_000 <= d * part <= 9_000_000_000_000_000_000)
        by (nonlinear_arith)
        requires
            -9_000_000_000_000 <= d <= 9_000_000_000_000,
            -1_000_000 <= part <= 1_000_000,
    ;
    (d * part) / UNIT
}

/// Advances a point by distance `d` along a direction, in the Cartesian
/// frame.
pub fn move_coords(curr: Point, d: i64, dir: Direction) -> (r: Point)
    requires
        near(curr),
        -MAX_REACH <= d <= MAX_REACH,
        dir.wf(),
    ensures
        (r.x as int, r.y as int) == moved(curr.x as int, curr.y as int, d as int, dir),
{
    proof {
        lemma_component_bound(d as int, dir.cos as int);
        lemma_component_bound(d as int, dir.sin as int);
    }
    let x: i64 = curr.x + along(d, dir.cos);
    let y: i64 = curr.y + along(d, dir.sin);
    Point { x, y }
}

/// The canvas point reached from the canvas point `from` by a step of length
/// `d` in direction `dir`: the step is taken in the Cartesian frame, where
/// the vertical axis points up, so on the canvas the vertical component is
/// subtracted.
pub open spec fn stepped(x: int, y: int, d: int, dir: Direction) -> (int, int) {
    (x + component(d, dir.cos as int), y - component(d, dir.sin as int))
}

/// A step on the canvas is a step in the Cartesian frame between the two
/// frame conversions.
pub proof fn lemma_stepped_through_frames(x: int, y: int, d: int, dir: Direction, w: int, h: int)
    ensures
        ({
            let c = to_cart(x, y, w, h);
            let m = moved(c.0, c.1, d, dir);
            to_canvas(m.0, m.1, w, h) == stepped(x, y, d, dir)
        }),
{
}

/// Steps from a canvas point by distance `d` along a direction: into the
/// Cartesian frame, along the direction, and back.
pub fn step_from(from: Point, d: i64, dir: Direction, width: usize, height: usize) -> (r: Point)
    requires
        valid_side(width as int),
        valid_side(height as int),
        -4 * MAX_REACH <= from.x <= 4 * MAX_REACH,
        -4 * MAX_REACH <= from.y <= 4 * MAX_REACH,
        -MAX_REACH <= d <= MAX_REACH,
        dir.wf(),
    ensures
        (r.x as int, r.y as int) == stepped(from.x as int, from.y as int, d as int, dir),
{
    proof {
        lemma_component_bound(d as int, dir.cos as int);
        lemma_component_bound(d as int, dir.sin as int);
    }
    let origin = canvas_to_cart(from, width, height);
    let target = move_coords(origin, d, dir);
    cart_to_canvas(target, width, height)
}

/// A coordinate brought back onto a side of `extent` millionths by at most
/// one translation by the extent.
pub open spec fn wrapped_once(coord: int, extent: int) -> int {
    if coord < 0 {
        coord + extent
    } else if coord >= extent {
        coord - extent
    } else {
        coord
    }
}

/// Brings a coordinate that left the side back by one translation.
pub fn wrap_once(coord: i64, extent: i64) -> (r: i64)
    requires
        0 < extent <= MAX_REACH,
        -4 * MAX_REACH <= coord <= 4 * MAX_REACH,
    ensures
        r == wrapped_once(coord as int, extent as int),
{
    if coord < 0 {
        coord + extent
    } else if coord >= extent {
        coord - extent
    } else {
        coord
    }
}

/// A coordinate that strayed less than one extent off the side is back on it
/// after one translation, over the same cell of the torus.
pub proof fn lemma_wrapped_once_on_side(coord: int, extent: int)
    requires
        extent > 0,
        -extent <= coord < 2 * extent,
    ensures
        0 <= wrapped_once(coord, extent) < extent,
        wrapped_once(coord, extent) == coord % extent,
{
    lemma_small_mod(wrapped_once(coord, extent) as nat, extent as nat);
    if coord < 0 {
        lemma_mod_multiples_vanish(1, coord, extent);
    } else if coord >= extent {
        lemma_mod_multiples_vanish(-1, coord, extent);
    }
}

} // verus!
