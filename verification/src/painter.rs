//! The painting collaborator: a rectangular grid of cells together with
//! the world rectangle that is visible on it.
//!
//! A painter maps a continuous world coordinate — here a pair of integers
//! in tenths of a degree — to a discrete cell of its grid, and marks cells
//! with a color. A world coordinate outside the configured bounds maps to
//! no cell at all; marking a cell overwrites whatever mark was there.

use vstd::prelude::*;

use crate::color::Color;

verus! {

/// The largest grid edge a painter accepts, in cells.
pub const MAX_GRID_EDGE: usize = 4096;

/// The largest magnitude a world bound may have, in tenths of a degree.
pub const MAX_WORLD_BOUND: i64 = 1_000_000;

/// A rectangular painting surface: a world rectangle, a grid size, and one
/// optional color per grid cell, stored row by row.
#[derive(Debug, Clone, PartialEq, Eq)]
pub struct Painter {
    /// The left edge of the visible world rectangle.
    pub x_min: i64,
    /// The right edge of the visible world rectangle.
    pub x_max: i64,
    /// The bottom edge of the visible world rectangle.
    pub y_min: i64,
    /// The top edge of the visible world rectangle.
    pub y_max: i64,
    /// The grid width, in cells.
    pub width: usize,
    /// The grid height, in cells.
    pub height: usize,
    /// The marks, row by row: `cells[cy * width + cx]` is the mark of the
    /// cell at column `cx` and row `cy`, `None` where nothing was painted.
    pub cells: Vec<Option<Color>>,
}

impl Painter {
    /// A painter is well formed when its grid is non-empty and of bounded
    /// size, its world rectangle is non-degenerate and of bounded
    /// magnitude, and it holds exactly one mark slot per grid cell.
    pub open spec fn wf(self) -> bool {
        &&& 0 < self.width <= MAX_GRID_EDGE
        &&& 0 < self.height <= MAX_GRID_EDGE
        &&& self.x_min < self.x_max
        &&& self.y_min < self.y_max
        &&& -MAX_WORLD_BOUND <= self.x_min
        &&& self.x_max <= MAX_WORLD_BOUND
        &&& -MAX_WORLD_BOUND <= self.y_min
        &&& self.y_max <= MAX_WORLD_BOUND
        &&& self.cells@.len() == self.width * self.height
    }

    /// Holds when two painters show the same world rectangle on a grid of
    /// the same size, whatever their cells hold.
    pub open spec fn config_eq(self, other: Painter) -> bool {
        &&& self.x_min == other.x_min
        &&& self.x_max == other.x_max
        &&& self.y_min == other.y_min
        &&& self.y_max == other.y_max
        &&& self.width == other.width
        &&& self.height == other.height
    }

    /// Whether a world coordinate lies inside the visible rectangle.
    pub open spec fn spec_in_bounds(self, x: int, y: int) -> bool {
        &&& self.x_min <= x <= self.x_max
        &&& self.y_min <= y <= self.y_max
    }

    /// The cell a world coordinate maps to: `None` outside the visible
    /// rectangle, else the cell found by scaling each axis linearly onto
    /// the grid, with the vertical axis flipped so that the top of the
    /// world rectangle is row zero.
    pub open spec fn spec_get_point(self, x: int, y: int) -> Option<(int, int)> {
        if self.spec_in_bounds(x, y) {
            Some(
                (
                    (x - self.x_min) * (self.width - 1) / (self.x_max - self.x_min),
                    (self.y_max - y) * (self.height - 1) / (self.y_max - self.y_min),
                ),
            )
        } else {
            None
        }
    }

    /// The mark of the cell at column `cx`, row `cy`.
    pub open spec fn spec_cell(self, cx: int, cy: int) -> Option<Color> {
        self.cells@[cy * self.width + cx]
    }

    /// Whether `(cx, cy)` names a cell of the grid.
    pub open spec fn spec_valid_cell(self, cx: int, cy: int) -> bool {
        &&& 0 <= cx < self.width
        &&& 0 <= cy < self.height
    }

    /// A fresh painter: the given configuration, every cell unmarked.
    pub fn new(width: usize, height: usize, x_min: i64, x_max: i64, y_min: i64, y_max: i64) -> (r:
        Painter)
        requires
            0 < width <= MAX_GRID_EDGE,
            0 < height <= MAX_GRID_EDGE,
            x_min < x_max,
            y_min < y_max,
            -MAX_WORLD_BOUND <= x_min,
            x_max <= MAX_WORLD_BOUND,
            -MAX_WORLD_BOUND <= y_min,
            y_max <= MAX_WORLD_BOUND,
        ensures
            r.wf(),
            r.width == width,
            r.height == height,
            r.x_min == x_min,
            r.x_max == x_max,
            r.y_min == y_min,
            r.y_max == y_max,
            forall|cx: int, cy: int|
                r.spec_valid_cell(cx, cy) ==> #[trigger] r.spec_cell(cx, cy) is None,
    {
        proof {
            assert(width * height <= MAX_GRID_EDGE * MAX_GRID_EDGE) by (nonlinear_arith)
                requires
                    0 < width <= MAX_GRID_EDGE,
                    0 < height <= MAX_GRID_EDGE,
            ;
        }
        let n: usize = width * height;
        let mut cells: Vec<Option<Color>> = Vec::new();
        let mut i: usize = 0;
        while i < n
            invariant
                i <= n,
                cells@.len() == i,
                forall|j: int| 0 <= j < i ==> #[trigger] cells@[j] is None,
            decreases n - i,
        {
            cells.push(None);
            i = i + 1;
        }
        let r = Painter { x_min, x_max, y_min, y_max, width, height, cells };
        proof {
            assert forall|cx: int, cy: int| r.spec_valid_cell(cx, cy) implies #[trigger] r.spec_cell(
                cx,
                cy,
            ) is None by {
                lemma_cell_index_in_range(r.width as int, r.height as int, cx, cy);
            }
        }
        r
    }

    /// Maps a world coordinate to the cell it is visible in, or to nothing
    /// when it falls outside the configured bounds. A pure function of the
    /// painter's configuration and the coordinate: it never fails, and it
    /// answers the same on every call.
    pub fn get_point(&self, x: i64, y: i64) -> (r: Option<(usize, usize)>)
        requires
            self.wf(),
        ensures
            match r {
                Some(p) => {
                    &&& self.spec_get_point(x as int, y as int) == Some((p.0 as int, p.1 as int))
                    &&& self.spec_valid_cell(p.0 as int, p.1 as int)
                },
                None => self.spec_get_point(x as int, y as int) is None,
            },
    {
        if x < self.x_min || x > self.x_max || y < self.y_min || y > self.y_max {
            return None;
        }
        let dx: i64 = x - self.x_min;
        let dy: i64 = self.y_max - y;
        let x_span: i64 = self.x_max - self.x_min;
        let y_span: i64 = self.y_max - self.y_min;
        let w1: i64 = (self.width - 1) as i64;
        let h1: i64 = (self.height - 1) as i64;
        proof {
            assert(0 <= dx * w1 <= 2_000_000 * 4095) by (nonlinear_arith)
                requires
                    0 <= dx <= 2_000_000,
                    0 <= w1 <= 4095,
            ;
            assert(0 <= dy * h1 <= 2_000_000 * 4095) by (nonlinear_arith)
                requires
                    0 <= dy <= 2_000_000,
                    0 <= h1 <= 4095,
            ;
        }
        let cx: i64 = dx * w1 / x_span;
        let cy: i64 = dy * h1 / y_span;
        proof {
            lemma_scale_in_range(dx as int, x_span as int, self.width - 1);
            lemma_scale_in_range(dy as int, y_span as int, self.height - 1);
        }
        Some((cx as usize, cy as usize))
    }

    /// Marks one cell with a color, overwriting any prior mark there; no
    /// other cell and nothing of the configuration changes.
    pub fn paint(&mut self, cx: usize, cy: usize, color: Color)
        requires
            old(self).wf(),
            old(self).spec_valid_cell(cx as int, cy as int),
        ensures
            final(self).wf(),
            final(self).config_eq(*old(self)),
            final(self).cells@ == old(self).cells@.update(
                cy * old(self).width + cx,
                Some(color),
            ),
    {
        proof {
            lemma_cell_index_in_range(self.width as int, self.height as int, cx as int, cy as int);
            assert(self.width * self.height <= 4096 * 4096) by (nonlinear_arith)
                requires
                    0 < self.width <= 4096,
                    0 < self.height <= 4096,
            ;
        }
        let idx: usize = cy * self.width + cx;
        self.cells[idx] = Some(color);
    }

    /// Reads the mark of one cell.
    pub fn cell_at(&self, cx: usize, cy: usize) -> (r: Option<Color>)
        requires
            self.wf(),
            self.spec_valid_cell(cx as int, cy as int),
        ensures
            r == self.spec_cell(cx as int, cy as int),
    {
        proof {
            lemma_cell_index_in_range(self.width as int, self.height as int, cx as int, cy as int);
            assert(self.width * self.height <= 4096 * 4096) by (nonlinear_arith)
                requires
                    0 < self.width <= 4096,
                    0 < self.height <= 4096,
            ;
        }
        self.cells[cy * self.width + cx]
    }

    /// The grid width, in cells.
    pub fn grid_width(&self) -> (r: usize)
        ensures
            r == self.width,
    {
        self.width
    }

    /// The grid height, in cells.
    pub fn grid_height(&self) -> (r: usize)
        ensures
            r == self.height,
    {
        self.height
    }
}

/// A row-by-row cell index stays inside a `w` by `h` grid.
pub proof fn lemma_cell_index_in_range(w: int, h: int, cx: int, cy: int)
    requires
        0 < w,
        0 < h,
        0 <= cx < w,
        0 <= cy < h,
    ensures
        0 <= cy * w + cx < w * h,
{
    assert(0 <= cy * w + cx < w * h) by (nonlinear_arith)
        requires
            0 < w,
            0 < h,
            0 <= cx < w,
            0 <= cy < h,
    ;
}

/// Two row-by-row cell indices agree only on the same cell.
pub proof fn lemma_cell_index_injective(w: int, cx1: int, cy1: int, cx2: int, cy2: int)
    requires
        0 < w,
        0 <= cx1 < w,
        0 <= cx2 < w,
        0 <= cy1,
        0 <= cy2,
        cy1 * w + cx1 == cy2 * w + cx2,
    ensures
        cx1 == cx2,
        cy1 == cy2,
{
    assert(cx1 == cx2 && cy1 == cy2) by (nonlinear_arith)
        requires
            0 < w,
            0 <= cx1 < w,
            0 <= cx2 < w,
            0 <= cy1,
            0 <= cy2,
            cy1 * w + cx1 == cy2 * w + cx2,
    ;
}

/// Every index of a `w` by `h` grid decomposes into the column and row it
/// names.
pub proof fn lemma_cell_index_decompose(w: int, h: int, idx: int)
    requires
        0 < w,
        0 < h,
        0 <= idx < w * h,
    ensures
        0 <= idx % w < w,
        0 <= idx / w < h,
        (idx / w) * w + (idx % w) == idx,
{
    vstd::arithmetic::div_mod::lemma_fundamental_div_mod(idx, w);
    vstd::arithmetic::div_mod::lemma_mod_division_less_than_divisor(idx, w);
    vstd::arithmetic::div_mod::lemma_div_pos_is_pos(idx, w);
    vstd::arithmetic::mul::lemma_mul_is_commutative(idx / w, w);
    assert(idx / w < h) by (nonlinear_arith)
        requires
            0 < w,
            0 < h,
            0 <= idx < w * h,
            w * (idx / w) + idx % w == idx,
            0 <= idx % w < w,
    ;
}

/// Scaling a non-negative offset of a span onto an edge of `e + 1` cells
/// lands on a cell: the quotient stays within `[0, e]`.
proof fn lemma_scale_in_range(d: int, span: int, e: int)
    requires
        0 <= d <= span,
        0 < span,
        0 <= e,
    ensures
        0 <= d * e / span <= e,
{
    assert(0 <= d * e) by (nonlinear_arith)
        requires
            0 <= d,
            0 <= e,
    ;
    vstd::arithmetic::div_mod::lemma_div_pos_is_pos(d * e, span);
    assert(d * e <= span * e) by (nonlinear_arith)
        requires
            0 <= d <= span,
            0 <= e,
    ;
    vstd::arithmetic::div_mod::lemma_div_is_ordered(d * e, span * e, span);
    vstd::arithmetic::div_mod::lemma_div_multiples_vanish(e, span);
}

} // verus!
