//! The pheromone field: a torus of cells that decays and diffuses.

use crate::cell::{decayed, deposited, levels, valid_channels, Cell, CHANNELS};
use crate::diffusion::{
    blurred, box_sum, diffused, lemma_blurred_value_range, lemma_blurred_wf, lemma_line_sum_range,
    lemma_line_sum_slide, lemma_pass_done, lemma_pass_next_channel, lemma_pass_next_line,
    lemma_pass_start, lemma_pass_write, line_next, line_sum, pass_state, window,
};
use crate::fixed::{clamp, clamped, lemma_mapped_between, lerp, map_range, mapped, UNIT};
use crate::random::RandomSource;
use crate::geometry::{
    index_of_point, inf_coords, lemma_wrap_index_in_range, lemma_wrap_index_inside, point_index,
    valid_side, wrap_index, Point, MAX_SIDE,
};
use vstd::prelude::*;

verus! {

/// The radius of the box filter of a grid made by `Grid::new`.
pub const BLUR_RADIUS: usize = 1;

/// The largest radius that the box filter may have.
pub const MAX_RADIUS: usize = 32_768;

/// How far each tick takes a cell from its own value towards the mean of its
/// neighbourhood, in millionths.
pub const BLUR_INTENSITY: i64 = 350_000;

/// The intensity at and below which a channel is drawn black.
pub const MIN_CUTOFF: i64 = 100_000;

/// The intensity at and above which a channel is drawn at full brightness.
pub const MAX_CUTOFF: i64 = 800_000;

/// The mathematical content of a grid: its sides, the radius of its box
/// filter, and the channels of each cell, row by row.
pub struct Field {
    pub width: int,
    pub height: int,
    pub radius: int,
    pub cells: Seq<Seq<int>>,
}

impl Field {
    /// The sides and the radius are within their limits, there is one cell
    /// for each place, and every channel lies between zero and one.
    pub open spec fn wf(self) -> bool {
        &&& valid_side(self.width)
        &&& valid_side(self.height)
        &&& 0 <= self.radius <= MAX_RADIUS
        &&& self.cells.len() == self.width * self.height
        &&& forall|i: int| 0 <= i < self.cells.len() ==> valid_channels(#[trigger] self.cells[i])
    }

    /// The channels of the cell at column `x` and row `y`, wrapped onto the
    /// torus.
    pub open spec fn at(self, x: int, y: int) -> Seq<int> {
        self.cells[wrap_index(x, y, self.width, self.height)]
    }

    /// The same field with other cells.
    pub open spec fn with_cells(self, cells: Seq<Seq<int>>) -> Field {
        Field { width: self.width, height: self.height, radius: self.radius, cells }
    }
}

/// A field of the given shape without any pheromone.
pub open spec fn empty_field(width: int, height: int, radius: int) -> Field {
    Field {
        width,
        height,
        radius,
        cells: Seq::new((width * height) as nat, |i: int| Seq::new(CHANNELS as nat, |c: int| 0int)),
    }
}

/// The field after every cell has decayed once.
pub open spec fn decayed_field(f: Field) -> Field {
    f.with_cells(Seq::new(f.cells.len(), |i: int| decayed(f.cells[i])))
}

/// The field after an agent of the given colour has deposited on the cell
/// under the point `(x, y)`.
pub open spec fn field_after_deposit(f: Field, x: int, y: int, color: Seq<int>) -> Field {
    let k = point_index(x, y, f.width, f.height);
    f.with_cells(f.cells.update(k, deposited(f.cells[k], color)))
}

/// The channels of each cell of a row-by-row buffer.
pub open spec fn channels_of(cells: Seq<Cell>) -> Seq<Seq<int>> {
    Seq::new(cells.len(), |i: int| cells[i]@)
}

/// A deposit leaves a well-formed field of the same shape, and changes no
/// cell but the one under the point.
pub proof fn lemma_field_after_deposit_wf(f: Field, x: int, y: int, color: Seq<int>)
    requires
        f.wf(),
        valid_channels(color),
    ensures
        field_after_deposit(f, x, y, color).wf(),
        field_after_deposit(f, x, y, color).width == f.width,
        field_after_deposit(f, x, y, color).height == f.height,
        field_after_deposit(f, x, y, color).radius == f.radius,
        forall|i: int|
            0 <= i < f.cells.len() && i != point_index(x, y, f.width, f.height)
                ==> #[trigger] field_after_deposit(f, x, y, color).cells[i] == f.cells[i],
{
    let k = point_index(x, y, f.width, f.height);
    lemma_wrap_index_in_range(
        crate::geometry::cell_of(x),
        crate::geometry::cell_of(y),
        f.width,
        f.height,
    );
    let g = field_after_deposit(f, x, y, color);
    assert forall|c: int| 0 <= c < CHANNELS implies 0 <= #[trigger] g.cells[k][c] <= UNIT by {
        crate::cell::lemma_deposit_step(f.cells[k][c], color[c]);
    }
}

/// The brightness, from 0 to 255, at which a channel of the given intensity
/// is drawn: the intensity is held between the two cutoffs and the range
/// between them is spread over the range of a byte.
pub open spec fn shade_of(v: int) -> int {
    mapped(
        clamped(v, MIN_CUTOFF as int, MAX_CUTOFF as int),
        MIN_CUTOFF as int,
        MAX_CUTOFF as int,
        0,
        255,
    )
}

/// The `j`-th byte of the picture of a field: four bytes for each cell, row
/// by row, a shade for each of the three channels and an opaque alpha.
pub open spec fn picture_byte(f: Field, j: int) -> int {
    if j % 4 == 3 {
        255
    } else {
        shade_of(f.cells[j / 4][j % 4])
    }
}

/// The brightness at which a channel of the given intensity is drawn.
pub fn shade(v: i64) -> (r: u8)
    requires
        0 <= v <= UNIT,
    ensures
        r == shade_of(v as int),
{
    let held: i64 = clamp(v, MIN_CUTOFF, MAX_CUTOFF);
    proof {
        lemma_mapped_between(held as int, MIN_CUTOFF as int, MAX_CUTOFF as int, 0, 255);
        assert(0 <= (held - MIN_CUTOFF) * 255 <= 700_000 * 255) by (nonlinear_arith)
            requires
                0 <= held - MIN_CUTOFF <= 700_000,
        ;
    }
    let level: i64 = map_range(held, MIN_CUTOFF, MAX_CUTOFF, 0, 255);
    level as u8
}

/// A toroidal grid of pheromone cells.
pub struct Grid {
    cells: Vec<Cell>,
    width: usize,
    height: usize,
    radius: usize,
}

impl View for Grid {
    type V = Field;

    closed spec fn view(&self) -> Field {
        Field {
            width: self.width as int,
            height: self.height as int,
            radius: self.radius as int,
            cells: channels_of(self.cells@),
        }
    }
}

impl Grid {
    /// The grid's content is a well-formed field.
    pub open spec fn wf(&self) -> bool {
        self@.wf()
    }

    /// An empty grid whose box filter has the given radius.
    pub fn with_radius(width: usize, height: usize, radius: usize) -> (g: Grid)
        requires
            valid_side(width as int),
            valid_side(height as int),
            radius <= MAX_RADIUS,
        ensures
            g@ == empty_field(width as int, height as int, radius as int),
            g.wf(),
    {
        assert(0 < width * height <= 32_768 * 32_768) by (nonlinear_arith)
            requires
                0 < width <= 32_768,
                0 < height <= 32_768,
        ;
        let count: usize = width * height;
        let mut cells: Vec<Cell> = Vec::new();
        for i in 0..count
            invariant
                cells@.len() == i,
                forall|j: int| 0 <= j < i ==> (#[trigger] cells@[j])@ == Seq::new(
                    CHANNELS as nat,
                    |c: int| 0int,
                ),
        {
            cells.push(Cell::empty());
        }
        let g = Grid { cells, width, height, radius };
        assert(g@.cells =~= empty_field(width as int, height as int, radius as int).cells);
        g
    }

    /// An empty grid with the default box filter.
    pub fn new(width: usize, height: usize) -> (g: Grid)
        requires
            valid_side(width as int),
            valid_side(height as int),
        ensures
            g@ == empty_field(width as int, height as int, BLUR_RADIUS as int),
            g.wf(),
    {
        Grid::with_radius(width, height, BLUR_RADIUS)
    }

    /// The number of columns.
    pub fn width(&self) -> (w: usize)
        ensures
            w == self@.width,
    {
        self.width
    }

    /// The number of rows.
    pub fn height(&self) -> (h: usize)
        ensures
            h == self@.height,
    {
        self.height
    }

    /// The radius of the box filter.
    pub fn radius(&self) -> (r: usize)
        ensures
            r == self@.radius,
    {
        self.radius
    }

    /// A grid with the given cells, row by row, if the sides and the radius
    /// are within their limits, there is one cell for each place and every
    /// cell is well formed.
    pub fn from_cells(
        width: usize,
        height: usize,
        radius: usize,
        cells: Vec<Cell>,
    ) -> (r: Option<Grid>)
        ensures
            r is Some <==> (Field {
                width: width as int,
                height: height as int,
                radius: radius as int,
                cells: channels_of(cells@),
            }).wf(),
            r matches Some(g) ==> g@ == (Field {
                width: width as int,
                height: height as int,
                radius: radius as int,
                cells: channels_of(cells@),
            }),
    {
        let ghost want = Field {
            width: width as int,
            height: height as int,
            radius: radius as int,
            cells: channels_of(cells@),
        };
        if width == 0 || height == 0 || width > MAX_SIDE || height > MAX_SIDE || radius
            > MAX_RADIUS {
            return None;
        }
        assert(0 < width * height <= 32_768 * 32_768) by (nonlinear_arith)
            requires
                0 < width <= 32_768,
                0 < height <= 32_768,
        ;
        if cells.len() != width * height {
            return None;
        }
        let mut valid: bool = true;
        for i in 0..cells.len()
            invariant
                want.cells == channels_of(cells@),
                valid == (forall|j: int| 0 <= j < i ==> valid_channels(#[trigger] want.cells[j])),
        {
            assert(want.cells[i as int] == cells@[i as int]@);
            if !cells[i].is_valid() {
                valid = false;
            }
        }
        if valid {
            let g = Grid { cells, width, height, radius };
            Some(g)
        } else {
            None
        }
    }

    /// A grid whose every channel holds a uniformly random intensity of at
    /// most `ceiling`.
    pub fn noisy(
        width: usize,
        height: usize,
        radius: usize,
        ceiling: i64,
        rng: &mut RandomSource,
    ) -> (g: Grid)
        requires
            valid_side(width as int),
            valid_side(height as int),
            radius <= MAX_RADIUS,
            0 <= ceiling <= UNIT,
        ensures
            g.wf(),
            g@.width == width,
            g@.height == height,
            g@.radius == radius,
            forall|i: int, c: int|
                0 <= i < g@.cells.len() && 0 <= c < CHANNELS ==> 0 <= #[trigger] g@.cells[i][c]
                    <= ceiling,
    {
        let mut g = Grid::with_radius(width, height, radius);
        let n: usize = g.cells.len();
        for i in 0..n
            invariant
                n == g.cells@.len(),
                g.wf(),
                g@.width == width,
                g@.height == height,
                g@.radius == radius,
                0 <= ceiling <= UNIT,
                forall|j: int, c: int|
                    0 <= j < g@.cells.len() && 0 <= c < CHANNELS ==> 0 <= #[trigger] g@.cells[j][c]
                        <= (if j < i {
                        ceiling as int
                    } else {
                        0
                    }),
        {
            let ghost before = g@;
            for c in 0..3usize
                invariant
                    n == g.cells@.len(),
                    i < n,
                    0 <= ceiling <= UNIT,
                    g@.width == width,
                    g@.height == height,
                    g@.radius == radius,
                    g@.cells.len() == before.cells.len(),
                    valid_channels(g@.cells[i as int]),
                    forall|j: int| 0 <= j < n && j != i ==> #[trigger] g@.cells[j] == before.cells[j],
                    forall|k: int| 0 <= k < CHANNELS ==> 0 <= #[trigger] g@.cells[i as int][k] <= ceiling,
            {
                let ghost inner = g@;
                let v: i64 = rng.range(0, ceiling + 1);
                g.cells[i].set_channel(c, v);
                assert(g@.cells =~= inner.cells.update(
                    i as int,
                    inner.cells[i as int].update(c as int, v as int),
                ));
            }
        }
        g
    }

    /// The picture of the field: for each cell, row by row, the shades of
    /// its three channels and an opaque alpha, one byte each.
    pub fn draw(&self) -> (pixels: Vec<u8>)
        requires
            self.wf(),
        ensures
            pixels@.len() == 4 * self@.cells.len(),
            forall|j: int| 0 <= j < pixels@.len() ==> #[trigger] pixels@[j] == picture_byte(self@, j),
    {
        let n: usize = self.cells.len();
        let mut pixels: Vec<u8> = Vec::new();
        for i in 0..n
            invariant
                self.wf(),
                n == self.cells@.len(),
                pixels@.len() == 4 * i,
                forall|j: int| 0 <= j < pixels@.len() ==> #[trigger] pixels@[j] == picture_byte(
                    self@,
                    j,
                ),
        {
            assert(valid_channels(self@.cells[i as int]));
            let r: u8 = shade(self.cells[i].channel(0));
            let g: u8 = shade(self.cells[i].channel(1));
            let b: u8 = shade(self.cells[i].channel(2));
            pixels.push(r);
            pixels.push(g);
            pixels.push(b);
            pixels.push(u8::MAX);
        }
        pixels
    }

    /// The cell at column `x` and row `y`.
    pub fn cell_at(&self, x: usize, y: usize) -> (c: &Cell)
        requires
            self.wf(),
            x < self@.width,
            y < self@.height,
        ensures
            c@ == self@.cells[y * self@.width + x],
            c@ == self@.at(x as int, y as int),
            c.wf(),
    {
        proof {
            lemma_wrap_index_inside(x as int, y as int, self.width as int, self.height as int);
            lemma_wrap_index_in_range(x as int, y as int, self.width as int, self.height as int);
            assert(0 <= y * self.width <= 32_768 * 32_768) by (nonlinear_arith)
                requires
                    0 <= y < 32_768,
                    0 < self.width <= 32_768,
            ;
        }
        let i: usize = (y * self.width) + x;
        assert(self@.cells[i as int] == self.cells@[i as int]@);
        &self.cells[i]
    }

    /// The cell under a point, which may lie off the grid on any side.
    pub fn cell_at_pt(&self, loc: Point) -> (c: &Cell)
        requires
            self.wf(),
        ensures
            c@ == self@.cells[point_index(loc.x as int, loc.y as int, self@.width, self@.height)],
            c.wf(),
    {
        let i: usize = index_of_point(loc, self.width, self.height);
        &self.cells[i]
    }

    /// The cell under a point, to be changed in place.
    pub fn cell_at_pt_mut(&mut self, loc: Point) -> (c: &mut Cell)
        requires
            old(self).wf(),
        ensures
            c@ == old(self)@.cells[point_index(
                loc.x as int,
                loc.y as int,
                old(self)@.width,
                old(self)@.height,
            )],
            c.wf(),
            final(self)@.width == old(self)@.width,
            final(self)@.height == old(self)@.height,
            final(self)@.radius == old(self)@.radius,
            final(self)@.cells == old(self)@.cells.update(
                point_index(loc.x as int, loc.y as int, old(self)@.width, old(self)@.height),
                final(c)@,
            ),
    {
        let i: usize = index_of_point(loc, self.width, self.height);
        assert(self@.cells[i as int] == self.cells@[i as int]@);
        &mut self.cells[i]
    }

    /// Lets an agent of the given colour deposit on the cell under a point.
    pub fn deposit_at(&mut self, loc: Point, color: &[i64; 3])
        requires
            old(self).wf(),
            valid_channels(levels(*color)),
        ensures
            final(self)@ == field_after_deposit(
                old(self)@,
                loc.x as int,
                loc.y as int,
                levels(*color),
            ),
            final(self).wf(),
    {
        let cell = self.cell_at_pt_mut(loc);
        cell.deposit_color(color);
        proof {
            let k = point_index(
                loc.x as int,
                loc.y as int,
                old(self)@.width,
                old(self)@.height,
            );
            lemma_wrap_index_in_range(
                crate::geometry::cell_of(loc.x as int),
                crate::geometry::cell_of(loc.y as int),
                old(self)@.width,
                old(self)@.height,
            );
        }
    }

    /// All cells, row by row.
    pub fn snapshot(&self) -> (cells: &Vec<Cell>)
        ensures
            cells@.len() == self@.cells.len(),
            forall|i: int| 0 <= i < cells@.len() ==> (#[trigger] cells@[i])@ == self@.cells[i],
    {
        &self.cells
    }

    /// Lets every cell decay once.
    pub fn decay(&mut self)
        requires
            old(self).wf(),
        ensures
            final(self)@ == decayed_field(old(self)@),
            final(self).wf(),
    {
        let n: usize = self.cells.len();
        for i in 0..n
            invariant
                n == self.cells@.len(),
                self@.width == old(self)@.width,
                self@.height == old(self)@.height,
                self@.radius == old(self)@.radius,
                self@.cells.len() == old(self)@.cells.len(),
                old(self).wf(),
                self.wf(),
                forall|j: int| 0 <= j < i ==> #[trigger] self@.cells[j] == decayed(old(self)@.cells[j]),
                forall|j: int| i <= j < n ==> #[trigger] self@.cells[j] == old(self)@.cells[j],
        {
            let ghost before = self@;
            assert(self@.cells[i as int] == self.cells@[i as int]@);
            self.cells[i].decay();
            assert(self@.cells =~= before.cells.update(i as int, decayed(before.cells[i as int])));
        }
        assert(self@.cells =~= decayed_field(old(self)@).cells);
    }

    /// Channel `ch` of the cell at column `x` and row `y`, wrapped onto the
    /// torus.
    fn channel_at(&self, x: i64, y: i64, ch: usize) -> (v: i64)
        requires
            self.wf(),
            ch < CHANNELS,
        ensures
            v == self@.at(x as int, y as int)[ch as int],
            0 <= v <= UNIT,
    {
        let k: usize = inf_coords(x, y, self.width, self.height);
        self.cells[k].channel(ch)
    }

    /// Writes to `dest` the blurred value of channel `ch` of the cell at
    /// column `x` and row `y`, given the sum over its window.
    fn blend_into(
        &self,
        dest: &mut Vec<Cell>,
        x: i64,
        y: i64,
        ch: usize,
        total: i64,
        vertical: bool,
    )
        requires
            self.wf(),
            0 <= x < self@.width,
            0 <= y < self@.height,
            ch < CHANNELS,
            total == box_sum(self@, x as int, y as int, ch as int, vertical),
            pass_state(self@, vertical, channels_of(old(dest)@), x as int, y as int, ch as int),
        ensures
            pass_state(
                self@,
                vertical,
                channels_of(final(dest)@),
                line_next(x as int, y as int, vertical).0,
                line_next(x as int, y as int, vertical).1,
                ch as int,
            ),
    {
        let ghost before = channels_of(dest@);
        proof {
            lemma_pass_write(self@, vertical, before, x as int, y as int, ch as int);
            lemma_blurred_value_range(self@, x as int, y as int, ch as int, vertical);
            lemma_wrap_index_inside(x as int, y as int, self@.width, self@.height);
        }
        let k: usize = inf_coords(x, y, self.width, self.height);
        let span: i64 = (self.radius as i64) * 2 + 1;
        let mean: i64 = total / span;
        let current: i64 = dest[k].channel(ch);
        let v: i64 = lerp(current, mean, BLUR_INTENSITY);
        dest[k].set_channel(ch, v);
        assert(channels_of(dest@) =~= before.update(
            k as int,
            before[k as int].update(ch as int, v as int),
        ));
    }

    /// The pass of the box filter along the rows, from the grid into `dest`,
    /// which starts as a copy of the grid's cells. The sum over the window is
    /// computed once at the start of each row and then carried along: the
    /// cell that leaves the window is taken off, the cell that enters is
    /// added.
    fn blur_horizontal(&self, dest: &mut Vec<Cell>)
        requires
            self.wf(),
            channels_of(old(dest)@) == self@.cells,
        ensures
            channels_of(final(dest)@) == blurred(self@, false).cells,
    {
        let width: i64 = self.width as i64;
        let height: i64 = self.height as i64;
        let radius: i64 = self.radius as i64;
        proof {
            lemma_pass_start(self@, false);
        }
        for y in 0..height
            invariant
                self.wf(),
                width == self@.width,
                height == self@.height,
                radius == self@.radius,
                pass_state(self@, false, channels_of(dest@), 0, y as int, 0),
        {
            for i in 0..3usize
                invariant
                    self.wf(),
                    width == self@.width,
                    height == self@.height,
                    radius == self@.radius,
                    0 <= y < height,
                    pass_state(self@, false, channels_of(dest@), 0, y as int, i as int),
            {
                let mut total: i64 = 0;
                for kx in 0..radius * 2 + 1
                    invariant
                        self.wf(),
                        radius == self@.radius,
                        i < CHANNELS,
                        total == line_sum(self@, -radius, y as int, i as int, false, kx as nat),
                        0 <= total <= kx * UNIT,
                {
                    proof {
                        lemma_line_sum_range(
                            self@,
                            -radius,
                            y as int,
                            i as int,
                            false,
                            (kx + 1) as nat,
                        );
                    }
                    total += self.channel_at(kx - radius, y, i);
                }
                self.blend_into(dest, 0, y, i, total, false);
                for x in 1..width
                    invariant
                        self.wf(),
                        width == self@.width,
                        height == self@.height,
                        radius == self@.radius,
                        0 <= y < height,
                        i < CHANNELS,
                        total == box_sum(self@, x - 1, y as int, i as int, false),
                        pass_state(self@, false, channels_of(dest@), x as int, y as int, i as int),
                {
                    proof {
                        lemma_line_sum_slide(
                            self@,
                            x - 1 - radius,
                            y as int,
                            i as int,
                            false,
                            window(self@) as nat,
                        );
                        lemma_blurred_value_range(self@, x - 1, y as int, i as int, false);
                        lemma_blurred_value_range(self@, x as int, y as int, i as int, false);
                    }
                    total -= self.channel_at(x - radius - 1, y, i);
                    total += self.channel_at(x + radius, y, i);
                    self.blend_into(dest, x, y, i, total, false);
                }
                proof {
                    lemma_pass_next_channel(
                        self@,
                        false,
                        channels_of(dest@),
                        width as int,
                        y as int,
                        i as int,
                    );
                }
            }
            proof {
                lemma_pass_next_line(self@, false, channels_of(dest@), 0, y as int);
            }
        }
        proof {
            lemma_pass_done(self@, false, channels_of(dest@));
        }
    }

    /// The pass of the box filter along the columns, from the grid into
    /// `dest`, which starts as a copy of the grid's cells. The sum over the
    /// window is computed once at the top of each column and then carried
    /// down.
    fn blur_vertical(&self, dest: &mut Vec<Cell>)
        requires
            self.wf(),
            channels_of(old(dest)@) == self@.cells,
        ensures
            channels_of(final(dest)@) == blurred(self@, true).cells,
    {
        let width: i64 = self.width as i64;
        let height: i64 = self.height as i64;
        let radius: i64 = self.radius as i64;
        proof {
            lemma_pass_start(self@, true);
        }
        for x in 0..width
            invariant
                self.wf(),
                width == self@.width,
                height == self@.height,
                radius == self@.radius,
                pass_state(self@, true, channels_of(dest@), x as int, 0, 0),
        {
            for i in 0..3usize
                invariant
                    self.wf(),
                    width == self@.width,
                    height == self@.height,
                    radius == self@.radius,
                    0 <= x < width,
                    pass_state(self@, true, channels_of(dest@), x as int, 0, i as int),
            {
                let mut total: i64 = 0;
                for ky in 0..radius * 2 + 1
                    invariant
                        self.wf(),
                        radius == self@.radius,
                        i < CHANNELS,
                        total == line_sum(self@, x as int, -radius, i as int, true, ky as nat),
                        0 <= total <= ky * UNIT,
                {
                    proof {
                        lemma_line_sum_range(
                            self@,
                            x as int,
                            -radius,
                            i as int,
                            true,
                            (ky + 1) as nat,
                        );
                    }
                    total += self.channel_at(x, ky - radius, i);
                }
                self.blend_into(dest, x, 0, i, total, true);
                for y in 1..height
                    invariant
                        self.wf(),
                        width == self@.width,
                        height == self@.height,
                        radius == self@.radius,
                        0 <= x < width,
                        i < CHANNELS,
                        total == box_sum(self@, x as int, y - 1, i as int, true),
                        pass_state(self@, true, channels_of(dest@), x as int, y as int, i as int),
                {
                    proof {
                        lemma_line_sum_slide(
                            self@,
                            x as int,
                            y - 1 - radius,
                            i as int,
                            true,
                            window(self@) as nat,
                        );
                        lemma_blurred_value_range(self@, x as int, y - 1, i as int, true);
                        lemma_blurred_value_range(self@, x as int, y as int, i as int, true);
                    }
                    total -= self.channel_at(x, y - radius - 1, i);
                    total += self.channel_at(x, y + radius, i);
                    self.blend_into(dest, x, y, i, total, true);
                }
                proof {
                    lemma_pass_next_channel(
                        self@,
                        true,
                        channels_of(dest@),
                        x as int,
                        height as int,
                        i as int,
                    );
                }
            }
            proof {
                lemma_pass_next_line(self@, true, channels_of(dest@), x as int, 0);
            }
        }
        proof {
            lemma_pass_done(self@, true, channels_of(dest@));
        }
    }

    /// A copy of the grid's cells.
    fn copy_cells(&self) -> (cells: Vec<Cell>)
        ensures
            channels_of(cells@) == self@.cells,
    {
        let cells = self.cells.clone();
        cells
    }

    /// Diffuses the field: one pass of the box filter along the rows, then
    /// one along the columns. The first pass is complete, and has replaced
    /// the grid's cells, before the second begins.
    pub fn blur(&mut self)
        requires
            old(self).wf(),
        ensures
            final(self)@ == blurred(blurred(old(self)@, false), true),
            final(self).wf(),
    {
        proof {
            lemma_blurred_wf(self@, false);
            lemma_blurred_wf(blurred(self@, false), true);
        }
        let mut new_cells = self.copy_cells();
        self.blur_horizontal(&mut new_cells);
        self.cells = new_cells;

        let mut new_cells = self.copy_cells();
        self.blur_vertical(&mut new_cells);
        self.cells = new_cells;
    }

    /// Advances the field by one tick: every cell decays, then the field
    /// diffuses.
    pub fn update(&mut self)
        requires
            old(self).wf(),
        ensures
            final(self)@ == diffused(old(self)@),
            final(self).wf(),
    {
        self.decay();
        self.blur();
    }
}

} // verus!
