//! What one diffusion pass makes of a field: each cell moves part of the way
//! towards the mean of a window of cells centred on it, along a row first and
//! along a column after.

use crate::cell::{valid_channels, CHANNELS};
use crate::fixed::{lemma_lerped_between, lerped, UNIT};
use crate::geometry::{
    lemma_wrap_index_in_range, lemma_wrap_index_inside, lemma_wrap_index_of_cell, wrap_index,
};
use crate::grid::{decayed_field, Field, BLUR_INTENSITY};
use vstd::arithmetic::div_mod::{lemma_fundamental_div_mod, lemma_fundamental_div_mod_converse};
use vstd::prelude::*;

verus! {

/// The channel `ch` of the `k`-th cell of the line that starts at column `x`
/// and row `y` and runs to the right, or downwards if `vertical`.
pub open spec fn line_item(f: Field, x: int, y: int, ch: int, vertical: bool, k: int) -> int {
    if vertical {
        f.at(x, y + k)[ch]
    } else {
        f.at(x + k, y)[ch]
    }
}

/// The sum of channel `ch` over the first `n` cells of a line.
pub open spec fn line_sum(f: Field, x: int, y: int, ch: int, vertical: bool, n: nat) -> int
    decreases n,
{
    if n == 0 {
        0
    } else {
        line_sum(f, x, y, ch, vertical, (n - 1) as nat) + line_item(f, x, y, ch, vertical, n - 1)
    }
}

/// The number of cells in the window of the box filter.
pub open spec fn window(f: Field) -> int {
    2 * f.radius + 1
}

/// The sum of channel `ch` over the window centred on column `x` and row `y`.
/// The window wraps round the torus.
pub open spec fn box_sum(f: Field, x: int, y: int, ch: int, vertical: bool) -> int {
    if vertical {
        line_sum(f, x, y - f.radius, ch, vertical, window(f) as nat)
    } else {
        line_sum(f, x - f.radius, y, ch, vertical, window(f) as nat)
    }
}

/// The mean of channel `ch` over the window centred on column `x` and row
/// `y`.
pub open spec fn box_mean(f: Field, x: int, y: int, ch: int, vertical: bool) -> int {
    box_sum(f, x, y, ch, vertical) / window(f)
}

/// Channel `ch` of the cell at column `x` and row `y` after one pass: its own
/// value, taken towards the mean of its window by the blur intensity.
pub open spec fn blurred_value(f: Field, x: int, y: int, ch: int, vertical: bool) -> int {
    lerped(f.at(x, y)[ch], box_mean(f, x, y, ch, vertical), BLUR_INTENSITY as int)
}

/// The channels of the `i`-th cell after one pass.
pub open spec fn blurred_cell(f: Field, i: int, vertical: bool) -> Seq<int> {
    Seq::new(CHANNELS as nat, |ch: int| blurred_value(f, i % f.width, i / f.width, ch, vertical))
}

/// The field after one pass, along the rows or, if `vertical`, along the
/// columns.
pub open spec fn blurred(f: Field, vertical: bool) -> Field {
    f.with_cells(Seq::new(f.cells.len(), |i: int| blurred_cell(f, i, vertical)))
}

/// The field after one tick: decay, then the pass along the rows, then the
/// pass along the columns, which reads what the first pass wrote.
pub open spec fn diffused(f: Field) -> Field {
    blurred(blurred(decayed_field(f), false), true)
}

/// Every item of a line is a channel value between zero and one.
pub proof fn lemma_line_item_range(f: Field, x: int, y: int, ch: int, vertical: bool, k: int)
    requires
        f.wf(),
        0 <= ch < CHANNELS,
    ensures
        0 <= line_item(f, x, y, ch, vertical, k) <= UNIT,
{
    if vertical {
        lemma_wrap_index_in_range(x, y + k, f.width, f.height);
        assert(valid_channels(f.cells[wrap_index(x, y + k, f.width, f.height)]));
    } else {
        lemma_wrap_index_in_range(x + k, y, f.width, f.height);
        assert(valid_channels(f.cells[wrap_index(x + k, y, f.width, f.height)]));
    }
}

/// A sum over `n` cells lies between zero and `n`.
pub proof fn lemma_line_sum_range(f: Field, x: int, y: int, ch: int, vertical: bool, n: nat)
    requires
        f.wf(),
        0 <= ch < CHANNELS,
    ensures
        0 <= line_sum(f, x, y, ch, vertical, n) <= n * UNIT,
    decreases n,
{
    if n > 0 {
        lemma_line_sum_range(f, x, y, ch, vertical, (n - 1) as nat);
        lemma_line_item_range(f, x, y, ch, vertical, n - 1);
        assert(n * UNIT == (n - 1) * UNIT + UNIT) by (nonlinear_arith);
    }
}

/// The line that starts one cell further on.
pub open spec fn line_next(x: int, y: int, vertical: bool) -> (int, int) {
    if vertical {
        (x, y + 1)
    } else {
        (x + 1, y)
    }
}

/// Sliding a window one cell along its line takes the cell it leaves off the
/// sum and adds the cell it enters.
pub proof fn lemma_line_sum_slide(f: Field, x: int, y: int, ch: int, vertical: bool, n: nat)
    ensures
        line_sum(f, line_next(x, y, vertical).0, line_next(x, y, vertical).1, ch, vertical, n)
            == line_sum(f, x, y, ch, vertical, n) - line_item(f, x, y, ch, vertical, 0)
            + line_item(f, x, y, ch, vertical, n as int),
    decreases n,
{
    let nx = line_next(x, y, vertical).0;
    let ny = line_next(x, y, vertical).1;
    if n > 0 {
        lemma_line_sum_slide(f, x, y, ch, vertical, (n - 1) as nat);
        assert(line_item(f, nx, ny, ch, vertical, n - 1) == line_item(
            f,
            x,
            y,
            ch,
            vertical,
            n as int,
        ));
    }
}

/// The mean over a window and the blurred value are channel values between
/// zero and one.
pub proof fn lemma_blurred_value_range(f: Field, x: int, y: int, ch: int, vertical: bool)
    requires
        f.wf(),
        0 <= ch < CHANNELS,
    ensures
        0 <= box_sum(f, x, y, ch, vertical) <= window(f) * UNIT,
        0 <= box_mean(f, x, y, ch, vertical) <= UNIT,
        0 <= blurred_value(f, x, y, ch, vertical) <= UNIT,
{
    let n = window(f);
    let s = box_sum(f, x, y, ch, vertical);
    if vertical {
        lemma_line_sum_range(f, x, y - f.radius, ch, vertical, n as nat);
    } else {
        lemma_line_sum_range(f, x - f.radius, y, ch, vertical, n as nat);
    }
    assert(0 <= s / n <= UNIT) by (nonlinear_arith)
        requires
            n > 0,
            0 <= s <= n * UNIT,
    ;
    lemma_line_item_range(f, x, y, ch, true, 0);
    lemma_lerped_between(
        f.at(x, y)[ch],
        box_mean(f, x, y, ch, vertical),
        BLUR_INTENSITY as int,
        0,
        UNIT as int,
    );
}

/// A pass over a well-formed field leaves a well-formed field of the same
/// shape.
pub proof fn lemma_blurred_wf(f: Field, vertical: bool)
    requires
        f.wf(),
    ensures
        blurred(f, vertical).wf(),
        blurred(f, vertical).width == f.width,
        blurred(f, vertical).height == f.height,
        blurred(f, vertical).radius == f.radius,
{
    let g = blurred(f, vertical);
    assert forall|i: int| 0 <= i < g.cells.len() implies valid_channels(#[trigger] g.cells[i]) by {
        assert forall|c: int| 0 <= c < CHANNELS implies 0 <= #[trigger] g.cells[i][c] <= UNIT by {
            lemma_blurred_value_range(f, i % f.width, i / f.width, c, vertical);
        }
    }
}

/// Decay leaves a well-formed field of the same shape.
pub proof fn lemma_decayed_field_wf(f: Field)
    requires
        f.wf(),
    ensures
        decayed_field(f).wf(),
        decayed_field(f).width == f.width,
        decayed_field(f).height == f.height,
        decayed_field(f).radius == f.radius,
{
}

/// One tick keeps every channel of every cell between zero and one.
pub proof fn lemma_diffused_wf(f: Field)
    requires
        f.wf(),
    ensures
        diffused(f).wf(),
        diffused(f).width == f.width,
        diffused(f).height == f.height,
        diffused(f).radius == f.radius,
{
    lemma_decayed_field_wf(f);
    lemma_blurred_wf(decayed_field(f), false);
    lemma_blurred_wf(blurred(decayed_field(f), false), true);
}

/// With radius zero the window of each cell holds that cell alone, so a pass
/// changes nothing and a tick is pure decay.
pub proof fn lemma_blur_radius_zero(f: Field)
    requires
        f.wf(),
        f.radius == 0,
    ensures
        blurred(f, false) == f,
        blurred(f, true) == f,
        diffused(f) == decayed_field(f),
{
    lemma_blurred_identity(f, false);
    lemma_blurred_identity(f, true);
    lemma_decayed_field_wf(f);
    let d = decayed_field(f);
    lemma_blurred_identity(d, false);
    lemma_blurred_identity(d, true);
}

/// A pass with radius zero changes nothing.
pub proof fn lemma_blurred_identity(f: Field, vertical: bool)
    requires
        f.wf(),
        f.radius == 0,
    ensures
        blurred(f, vertical) == f,
{
    let g = blurred(f, vertical);
    assert forall|i: int| 0 <= i < f.cells.len() implies #[trigger] g.cells[i] == f.cells[i] by {
        lemma_wrap_index_of_cell(i, f.width, f.height);
        let x = i % f.width;
        let y = i / f.width;
        assert forall|c: int| 0 <= c < CHANNELS implies #[trigger] g.cells[i][c] == f.cells[i][c] by {
            let v = f.cells[i][c];
            assert(line_sum(f, x, y, c, vertical, 1) == line_sum(f, x, y, c, vertical, 0)
                + line_item(f, x, y, c, vertical, 0));
            assert(box_sum(f, x, y, c, vertical) == v);
            lemma_lerped_between(v, v, BLUR_INTENSITY as int, v, v);
        }
    }
    assert(g.cells =~= f.cells);
}

/// Whether a pass that has come to column `px`, row `py` and channel `pch`
/// has already written channel `ch` of the cell at column `x` and row `y`. A
/// pass along the rows takes the rows in turn, in each row the channels in
/// turn, and for each channel the columns in turn; a pass along the columns
/// does the same with rows and columns exchanged.
pub open spec fn reached(
    vertical: bool,
    x: int,
    y: int,
    ch: int,
    px: int,
    py: int,
    pch: int,
) -> bool {
    if vertical {
        x < px || (x == px && (ch < pch || (ch == pch && y < py)))
    } else {
        y < py || (y == py && (ch < pch || (ch == pch && x < px)))
    }
}

/// The state of the destination buffer while a pass over `f` is under way:
/// what the pass has reached holds the blurred value, the rest still holds
/// the value it was copied from.
pub open spec fn pass_state(
    f: Field,
    vertical: bool,
    dest: Seq<Seq<int>>,
    px: int,
    py: int,
    pch: int,
) -> bool {
    &&& dest.len() == f.cells.len()
    &&& forall|i: int| 0 <= i < dest.len() ==> valid_channels(#[trigger] dest[i])
    &&& forall|i: int, c: int|
        0 <= i < dest.len() && 0 <= c < CHANNELS ==> #[trigger] dest[i][c] == (if reached(
            vertical,
            i % f.width,
            i / f.width,
            c,
            px,
            py,
            pch,
        ) {
            blurred_value(f, i % f.width, i / f.width, c, vertical)
        } else {
            f.cells[i][c]
        })
}

/// Before a pass the destination is a copy of the field.
pub proof fn lemma_pass_start(f: Field, vertical: bool)
    requires
        f.wf(),
    ensures
        pass_state(f, vertical, f.cells, 0, 0, 0),
{
    let w = f.width;
    assert forall|i: int, c: int| 0 <= i < f.cells.len() && 0 <= c < CHANNELS implies #[trigger] f.cells[i][c]
        == (if reached(vertical, i % w, i / w, c, 0, 0, 0) {
        blurred_value(f, i % w, i / w, c, vertical)
    } else {
        f.cells[i][c]
    }) by {
        lemma_wrap_index_of_cell(i, w, f.height);
    }
}

/// Writing the blurred value of the place that the pass has come to takes the
/// pass one cell further along its line.
pub proof fn lemma_pass_write(
    f: Field,
    vertical: bool,
    dest: Seq<Seq<int>>,
    x: int,
    y: int,
    ch: int,
)
    requires
        f.wf(),
        0 <= x < f.width,
        0 <= y < f.height,
        0 <= ch < CHANNELS,
        pass_state(f, vertical, dest, x, y, ch),
    ensures
        0 <= y * f.width + x < dest.len(),
        dest[y * f.width + x][ch] == f.at(x, y)[ch],
        0 <= blurred_value(f, x, y, ch, vertical) <= UNIT,
        pass_state(
            f,
            vertical,
            dest.update(
                y * f.width + x,
                dest[y * f.width + x].update(ch, blurred_value(f, x, y, ch, vertical)),
            ),
            line_next(x, y, vertical).0,
            line_next(x, y, vertical).1,
            ch,
        ),
{
    let w = f.width;
    let k = y * w + x;
    lemma_wrap_index_inside(x, y, w, f.height);
    lemma_wrap_index_in_range(x, y, w, f.height);
    assert(k == w * y + x) by (nonlinear_arith)
        requires
            k == y * w + x,
    ;
    lemma_fundamental_div_mod_converse(k, w, y, x);
    let v = blurred_value(f, x, y, ch, vertical);
    lemma_blurred_value_range(f, x, y, ch, vertical);
    let after = dest.update(k, dest[k].update(ch, v));
    let nx = line_next(x, y, vertical).0;
    let ny = line_next(x, y, vertical).1;
    assert forall|i: int, c: int| 0 <= i < after.len() && 0 <= c < CHANNELS implies #[trigger] after[i][c]
        == (if reached(vertical, i % w, i / w, c, nx, ny, ch) {
        blurred_value(f, i % w, i / w, c, vertical)
    } else {
        f.cells[i][c]
    }) by {
        lemma_fundamental_div_mod(i, w);
        assert(dest[i][c] == (if reached(vertical, i % w, i / w, c, x, y, ch) {
            blurred_value(f, i % w, i / w, c, vertical)
        } else {
            f.cells[i][c]
        }));
        if i % w == x && i / w == y {
            assert(i == k) by (nonlinear_arith)
                requires
                    i == w * (i / w) + i % w,
                    i % w == x,
                    i / w == y,
                    k == w * y + x,
            ;
        }
    }
}

/// When a pass has done a channel along a whole line it goes on with the next
/// channel at the start of that line.
pub proof fn lemma_pass_next_channel(
    f: Field,
    vertical: bool,
    dest: Seq<Seq<int>>,
    x: int,
    y: int,
    ch: int,
)
    requires
        f.wf(),
        if vertical {
            y == f.height
        } else {
            x == f.width
        },
        pass_state(f, vertical, dest, x, y, ch),
    ensures
        vertical ==> pass_state(f, vertical, dest, x, 0, ch + 1),
        !vertical ==> pass_state(f, vertical, dest, 0, y, ch + 1),
{
    let w = f.width;
    let (nx, ny) = if vertical {
        (x, 0int)
    } else {
        (0int, y)
    };
    assert forall|i: int, c: int| 0 <= i < dest.len() && 0 <= c < CHANNELS implies #[trigger] dest[i][c]
        == (if reached(vertical, i % w, i / w, c, nx, ny, ch + 1) {
        blurred_value(f, i % w, i / w, c, vertical)
    } else {
        f.cells[i][c]
    }) by {
        lemma_wrap_index_of_cell(i, w, f.height);
        assert(dest[i][c] == (if reached(vertical, i % w, i / w, c, x, y, ch) {
            blurred_value(f, i % w, i / w, c, vertical)
        } else {
            f.cells[i][c]
        }));
    }
}

/// When a pass has done every channel of a line it goes on with the first
/// channel of the next line.
pub proof fn lemma_pass_next_line(
    f: Field,
    vertical: bool,
    dest: Seq<Seq<int>>,
    x: int,
    y: int,
)
    requires
        f.wf(),
        if vertical {
            y == 0
        } else {
            x == 0
        },
        pass_state(f, vertical, dest, x, y, CHANNELS as int),
    ensures
        vertical ==> pass_state(f, vertical, dest, x + 1, 0, 0),
        !vertical ==> pass_state(f, vertical, dest, 0, y + 1, 0),
{
    let w = f.width;
    let (nx, ny) = if vertical {
        (x + 1, 0int)
    } else {
        (0int, y + 1)
    };
    assert forall|i: int, c: int| 0 <= i < dest.len() && 0 <= c < CHANNELS implies #[trigger] dest[i][c]
        == (if reached(vertical, i % w, i / w, c, nx, ny, 0) {
        blurred_value(f, i % w, i / w, c, vertical)
    } else {
        f.cells[i][c]
    }) by {
        lemma_wrap_index_of_cell(i, w, f.height);
        assert(dest[i][c] == (if reached(vertical, i % w, i / w, c, x, y, CHANNELS as int) {
            blurred_value(f, i % w, i / w, c, vertical)
        } else {
            f.cells[i][c]
        }));
    }
}

/// When a pass has done the last line the destination holds the blurred
/// field.
pub proof fn lemma_pass_done(f: Field, vertical: bool, dest: Seq<Seq<int>>)
    requires
        f.wf(),
        if vertical {
            pass_state(f, vertical, dest, f.width, 0, 0)
        } else {
            pass_state(f, vertical, dest, 0, f.height, 0)
        },
    ensures
        dest == blurred(f, vertical).cells,
{
    let w = f.width;
    let want = blurred(f, vertical).cells;
    let (px, py) = if vertical {
        (f.width, 0int)
    } else {
        (0int, f.height)
    };
    assert forall|i: int| 0 <= i < dest.len() implies #[trigger] dest[i] == want[i] by {
        lemma_wrap_index_of_cell(i, w, f.height);
        assert forall|c: int| 0 <= c < CHANNELS implies #[trigger] dest[i][c] == want[i][c] by {
            assert(dest[i][c] == (if reached(vertical, i % w, i / w, c, px, py, 0) {
                blurred_value(f, i % w, i / w, c, vertical)
            } else {
                f.cells[i][c]
            }));
        }
    }
}

} // verus!
