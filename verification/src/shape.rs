//! The map shape and its draw contract.

use vstd::assert_seqs_equal;
use vstd::prelude::*;

use crate::color::Color;
use crate::painter::Painter;
use crate::painter::lemma_cell_index_decompose;
use crate::painter::lemma_cell_index_in_range;
use crate::painter::lemma_cell_index_injective;
use crate::resolution::MapResolution;
use crate::world::data_matches;
use crate::world::spec_data;

verus! {

/// A world map: a value object pairing a resolution tier with the color
/// its points are painted in.
///
/// Equality and hashing are structural over both fields; two shapes with
/// the same fields are interchangeable.
#[derive(Debug, Clone, PartialEq, Eq, Structural, Hash)]
pub struct MapShape {
    /// Which of the two built-in point datasets a draw enumerates.
    pub resolution: MapResolution,
    /// The color every painted cell is marked with.
    pub color: Color,
}

impl Default for MapShape {
    /// The default shape: the low tier, painted with the reset sentinel.
    fn default() -> (r: Self)
        ensures
            r.resolution == MapResolution::Low,
            r.color == Color::Reset,
    {
        MapShape { resolution: MapResolution::Low, color: Color::Reset }
    }
}

/// Whether one of the first `k` points of `pts` is visible in the cell
/// `(cx, cy)` of a painter configured as `p`.
pub open spec fn cell_hit_upto(p: Painter, pts: Seq<(int, int)>, k: int, cx: int, cy: int) -> bool {
    exists|i: int|
        0 <= i < k && i < pts.len() && p.spec_get_point(pts[i].0, pts[i].1) == Some((cx, cy))
}

/// Whether some point of `pts` is visible in the cell `(cx, cy)` of a
/// painter configured as `p`.
pub open spec fn cell_hit(p: Painter, pts: Seq<(int, int)>, cx: int, cy: int) -> bool {
    cell_hit_upto(p, pts, pts.len() as int, cx, cy)
}

/// Everything a draw leaves behind, stated over the painter before (`o`)
/// and after (`n`) the call: the configuration is untouched, and a cell is
/// marked with the shape's color exactly when some dataset point is
/// visible in it — every other cell keeps the mark it had. Out-of-bounds
/// points are visible in no cell, so they paint nothing and raise no
/// error.
pub open spec fn draw_post(shape: MapShape, o: Painter, n: Painter) -> bool {
    &&& n.wf()
    &&& n.config_eq(o)
    &&& n.cells@.len() == o.cells@.len()
    &&& forall|cx: int, cy: int|
        o.spec_valid_cell(cx, cy) ==> #[trigger] n.spec_cell(cx, cy) == (if cell_hit(
            o,
            spec_data(shape.resolution),
            cx,
            cy,
        ) {
            Some(shape.color)
        } else {
            o.spec_cell(cx, cy)
        })
}

/// Where a world coordinate is visible depends on the painter's
/// configuration alone, never on what its cells hold.
pub proof fn lemma_get_point_config_only(a: Painter, b: Painter, x: int, y: int)
    requires
        a.config_eq(b),
    ensures
        a.spec_get_point(x, y) == b.spec_get_point(x, y),
{
}

/// Taking one more point into account hits a cell exactly when the shorter
/// prefix already hit it or the new point is visible in it.
proof fn lemma_cell_hit_upto_step(p: Painter, pts: Seq<(int, int)>, k: int, cx: int, cy: int)
    requires
        0 <= k < pts.len(),
    ensures
        cell_hit_upto(p, pts, k + 1, cx, cy) <==> (cell_hit_upto(p, pts, k, cx, cy)
            || p.spec_get_point(pts[k].0, pts[k].1) == Some((cx, cy))),
{
    if cell_hit_upto(p, pts, k + 1, cx, cy) {
        let i = choose|i: int|
            0 <= i < k + 1 && i < pts.len() && p.spec_get_point(pts[i].0, pts[i].1) == Some(
                (cx, cy),
            );
        if i < k {
            assert(cell_hit_upto(p, pts, k, cx, cy));
        }
    }
    if cell_hit_upto(p, pts, k, cx, cy) {
        let i = choose|i: int|
            0 <= i < k && i < pts.len() && p.spec_get_point(pts[i].0, pts[i].1) == Some((cx, cy));
        assert(0 <= i < k + 1 && i < pts.len() && p.spec_get_point(pts[i].0, pts[i].1) == Some(
            (cx, cy),
        ));
        assert(cell_hit_upto(p, pts, k + 1, cx, cy));
    }
    if p.spec_get_point(pts[k].0, pts[k].1) == Some((cx, cy)) {
        assert(0 <= k < k + 1 && k < pts.len() && p.spec_get_point(pts[k].0, pts[k].1) == Some(
            (cx, cy),
        ));
        assert(cell_hit_upto(p, pts, k + 1, cx, cy));
    }
}

/// Whether a prefix of the dataset hits a cell also depends on the
/// painter's configuration alone.
proof fn lemma_cell_hit_upto_config_only(
    a: Painter,
    b: Painter,
    pts: Seq<(int, int)>,
    k: int,
    cx: int,
    cy: int,
)
    requires
        a.config_eq(b),
    ensures
        cell_hit_upto(a, pts, k, cx, cy) == cell_hit_upto(b, pts, k, cx, cy),
{
    if cell_hit_upto(a, pts, k, cx, cy) {
        let i = choose|i: int|
            0 <= i < k && i < pts.len() && a.spec_get_point(pts[i].0, pts[i].1) == Some((cx, cy));
        lemma_get_point_config_only(a, b, pts[i].0, pts[i].1);
        assert(cell_hit_upto(b, pts, k, cx, cy));
    }
    if cell_hit_upto(b, pts, k, cx, cy) {
        let i = choose|i: int|
            0 <= i < k && i < pts.len() && b.spec_get_point(pts[i].0, pts[i].1) == Some((cx, cy));
        lemma_get_point_config_only(b, a, pts[i].0, pts[i].1);
        assert(cell_hit_upto(a, pts, k, cx, cy));
    }
}

/// Whether some dataset point hits a cell depends on the painter's
/// configuration alone.
pub proof fn lemma_cell_hit_config_only(
    a: Painter,
    b: Painter,
    pts: Seq<(int, int)>,
    cx: int,
    cy: int,
)
    requires
        a.config_eq(b),
    ensures
        cell_hit(a, pts, cx, cy) == cell_hit(b, pts, cx, cy),
{
    lemma_cell_hit_upto_config_only(a, b, pts, pts.len() as int, cx, cy);
}

impl MapShape {
    /// Draws the map: for every point of the dataset behind the shape's
    /// resolution, in dataset order, marks the cell the point is visible
    /// in with the shape's color, and silently skips every point outside
    /// the painter's bounds. Reads the shape and the dataset only; every
    /// side effect is a mark on the painter's cells.
    pub fn draw(&self, painter: &mut Painter)
        requires
            old(painter).wf(),
        ensures
            draw_post(*self, *old(painter), *final(painter)),
    {
        let pts = self.resolution.data();
        let n: usize = pts.len();
        let ghost pd = spec_data(self.resolution);
        let mut k: usize = 0;
        while k < n
            invariant
                painter.wf(),
                painter.config_eq(*old(painter)),
                painter.cells@.len() == old(painter).cells@.len(),
                old(painter).wf(),
                k <= n,
                n == pts@.len(),
                data_matches(self.resolution, pts@),
                pd == spec_data(self.resolution),
                forall|cx: int, cy: int|
                    old(painter).spec_valid_cell(cx, cy) ==> #[trigger] painter.spec_cell(cx, cy)
                        == (if cell_hit_upto(*old(painter), pd, k as int, cx, cy) {
                        Some(self.color)
                    } else {
                        old(painter).spec_cell(cx, cy)
                    }),
            decreases n - k,
        {
            let p = pts[k];
            proof {
                assert(p == pts@[k as int]);
                assert(pts@[k as int].0 == pd[k as int].0 && pts@[k as int].1 == pd[k as int].1);
                assert(p.0 == pd[k as int].0 && p.1 == pd[k as int].1);
            }
            let ghost pre = *painter;
            let r = painter.get_point(p.0, p.1);
            match r {
                Some(c) => {
                    painter.paint(c.0, c.1, self.color);
                    proof {
                        let w = pre.width as int;
                        let h = pre.height as int;
                        lemma_get_point_config_only(pre, *old(painter), p.0 as int, p.1 as int);
                        lemma_cell_index_in_range(w, h, c.0 as int, c.1 as int);
                        assert forall|cx: int, cy: int|
                            old(painter).spec_valid_cell(cx, cy) implies #[trigger] painter.spec_cell(
                            cx,
                            cy,
                        ) == (if cell_hit_upto(*old(painter), pd, k + 1, cx, cy) {
                            Some(self.color)
                        } else {
                            old(painter).spec_cell(cx, cy)
                        }) by {
                            lemma_cell_index_in_range(w, h, cx, cy);
                            lemma_cell_hit_upto_step(*old(painter), pd, k as int, cx, cy);
                            if cx == c.0 as int && cy == c.1 as int {
                                assert(painter.spec_cell(cx, cy) == Some(self.color));
                            } else {
                                if cy * w + cx == (c.1 as int) * w + (c.0 as int) {
                                    lemma_cell_index_injective(w, cx, cy, c.0 as int, c.1 as int);
                                }
                                assert(painter.spec_cell(cx, cy) == pre.spec_cell(cx, cy));
                            }
                        }
                    }
                },
                None => {
                    proof {
                        lemma_get_point_config_only(pre, *old(painter), p.0 as int, p.1 as int);
                        assert forall|cx: int, cy: int|
                            old(painter).spec_valid_cell(cx, cy) implies #[trigger] painter.spec_cell(
                            cx,
                            cy,
                        ) == (if cell_hit_upto(*old(painter), pd, k + 1, cx, cy) {
                            Some(self.color)
                        } else {
                            old(painter).spec_cell(cx, cy)
                        }) by {
                            lemma_cell_hit_upto_step(*old(painter), pd, k as int, cx, cy);
                        }
                    }
                },
            }
            k = k + 1;
        }
    }
}

/// Drawing is deterministic: two draws of one shape onto painters with the
/// same configuration and the same prior marks leave bit-identical grids.
pub proof fn lemma_draw_deterministic(
    shape: MapShape,
    o1: Painter,
    n1: Painter,
    o2: Painter,
    n2: Painter,
)
    requires
        o1.wf(),
        o2.wf(),
        o1.config_eq(o2),
        o1.cells@ == o2.cells@,
        draw_post(shape, o1, n1),
        draw_post(shape, o2, n2),
    ensures
        n1.cells@ == n2.cells@,
{
    let w = o1.width as int;
    let h = o1.height as int;
    assert_seqs_equal!(n1.cells@ == n2.cells@, idx => {
        lemma_cell_index_decompose(w, h, idx);
        let cx: int = idx % w;
        let cy: int = idx / w;
        lemma_cell_hit_config_only(o1, o2, spec_data(shape.resolution), cx, cy);
        assert(n1.spec_cell(cx, cy) == n2.spec_cell(cx, cy));
    });
}

/// Drawing is idempotent: a second draw of the same shape, with the
/// painter otherwise untouched, leaves the painted surface exactly as the
/// first draw left it.
pub proof fn lemma_draw_idempotent(shape: MapShape, p0: Painter, p1: Painter, p2: Painter)
    requires
        p0.wf(),
        draw_post(shape, p0, p1),
        draw_post(shape, p1, p2),
    ensures
        p2.cells@ == p1.cells@,
{
    let w = p0.width as int;
    let h = p0.height as int;
    assert_seqs_equal!(p2.cells@ == p1.cells@, idx => {
        lemma_cell_index_decompose(w, h, idx);
        let cx: int = idx % w;
        let cy: int = idx / w;
        lemma_cell_hit_config_only(p1, p0, spec_data(shape.resolution), cx, cy);
        assert(p2.spec_cell(cx, cy) == p1.spec_cell(cx, cy));
    });
}

/// No mark comes from outside the bounds: a cell a draw changed shows some
/// dataset point that lies inside the painter's configured world
/// rectangle. Points outside the bounds are visible in no cell, so they
/// never appear on the surface.
pub proof fn lemma_changed_cell_shows_visible_point(
    shape: MapShape,
    o: Painter,
    n: Painter,
    cx: int,
    cy: int,
)
    requires
        o.wf(),
        draw_post(shape, o, n),
        o.spec_valid_cell(cx, cy),
        n.spec_cell(cx, cy) != o.spec_cell(cx, cy),
    ensures
        n.spec_cell(cx, cy) == Some(shape.color),
        exists|i: int|
            #![trigger spec_data(shape.resolution)[i]]
            {
                0 <= i < spec_data(shape.resolution).len() && o.spec_in_bounds(
                    spec_data(shape.resolution)[i].0,
                    spec_data(shape.resolution)[i].1,
                ) && o.spec_get_point(
                    spec_data(shape.resolution)[i].0,
                    spec_data(shape.resolution)[i].1,
                ) == Some((cx, cy))
            },
{
    let pts = spec_data(shape.resolution);
    assert(cell_hit(o, pts, cx, cy));
    let i = choose|i: int|
        0 <= i < pts.len() && o.spec_get_point(pts[i].0, pts[i].1) == Some((cx, cy));
    assert(o.spec_in_bounds(pts[i].0, pts[i].1));
    assert(0 <= i < pts.len() && o.spec_in_bounds(pts[i].0, pts[i].1) && o.spec_get_point(
        pts[i].0,
        pts[i].1,
    ) == Some((cx, cy)));
}

} // verus!
