//! The grid layout engine.
//!
//! Given the terminal dimensions and a layout specification (one entry per
//! column, each the number of panes stacked in that column, or per row when
//! rotated), the engine partitions the terminal into rectangles.  Widths and
//! heights come from integer division; the last column and the last pane of
//! each column absorb the remainder, so the rectangles tile the terminal
//! exactly: their areas add up to the whole screen and no two overlap.

use vstd::arithmetic::div_mod::{
    lemma_div_pos_is_pos, lemma_fundamental_div_mod, lemma_remainder, lemma_remainder_lower,
};
use vstd::arithmetic::mul::{
    lemma_mul_inequality, lemma_mul_is_commutative, lemma_mul_is_distributive_add,
    lemma_mul_is_distributive_add_other_way, lemma_mul_nonnegative,
};
use vstd::prelude::*;

use crate::Error;

verus! {

/// One pane rectangle: lengths and origin, in screen cells.
#[derive(Clone, Copy, Debug, PartialEq, Eq, Structural)]
pub struct Rect {
    pub ylen: usize,
    pub xlen: usize,
    pub ypos: usize,
    pub xpos: usize,
}

/// The mathematical shadow of a `Rect`, over unbounded integers.
#[verifier::ext_equal]
pub struct RectSpec {
    pub ylen: int,
    pub xlen: int,
    pub ypos: int,
    pub xpos: int,
}

pub open spec fn rect_view(r: Rect) -> RectSpec {
    RectSpec {
        ylen: r.ylen as int,
        xlen: r.xlen as int,
        ypos: r.ypos as int,
        xpos: r.xpos as int,
    }
}

/// The mathematical shadow of a sequence of `Rect`s.
pub open spec fn rects_view(v: Seq<Rect>) -> Seq<RectSpec> {
    v.map_values(|r: Rect| rect_view(r))
}

/// Mirror every rectangle of a sequence across the main diagonal.
pub open spec fn swap_all(s: Seq<RectSpec>) -> Seq<RectSpec> {
    s.map_values(|r: RectSpec| swap_axes(r))
}

/// A layout entry of 0 is coerced to 1 pane.
pub open spec fn coerce_panes(v: usize) -> int {
    if v == 0 {
        1
    } else {
        v as int
    }
}

/// Total number of panes a layout asks for, zero entries coerced.
pub open spec fn panes_total(s: Seq<usize>) -> int
    decreases s.len(),
{
    if s.len() == 0 {
        0
    } else {
        panes_total(s.drop_last()) + coerce_panes(s.last())
    }
}

/// x origin of column `i` out of `n` columns over width `xx`.
pub open spec fn col_xpos(xx: int, n: int, i: int) -> int {
    (xx / n) * i
}

/// Width of column `i`: the last column absorbs the remainder.
pub open spec fn col_xlen(xx: int, n: int, i: int) -> int {
    if i == n - 1 {
        xx / n + xx % n
    } else {
        xx / n
    }
}

/// y origin of pane `j` out of `y` panes stacked over height `yy`.
pub open spec fn stack_ypos(yy: int, y: int, j: int) -> int {
    (yy / y) * j
}

/// Height of pane `j`: the last pane absorbs the remainder.
pub open spec fn stack_ylen(yy: int, y: int, j: int) -> int {
    if j == y - 1 {
        yy / y + yy % y
    } else {
        yy / y
    }
}

/// The rectangles of one column: `y` panes stacked over height `yy`,
/// sharing the column's x origin and width.
pub open spec fn column_rects(yy: int, y: int, xpos: int, xlen: int) -> Seq<RectSpec> {
    Seq::new(
        y as nat,
        |j: int|
            RectSpec {
                ylen: stack_ylen(yy, y, j),
                xlen: xlen,
                ypos: stack_ypos(yy, y, j),
                xpos: xpos,
            },
    )
}

/// The rectangles of the first `i` columns of the column-major grid, in
/// emission order.
pub open spec fn grid_xy(yy: int, xx: int, s: Seq<usize>, i: int) -> Seq<RectSpec>
    decreases i,
{
    if i <= 0 {
        Seq::empty()
    } else {
        grid_xy(yy, xx, s, i - 1) + column_rects(
            yy,
            coerce_panes(s[i - 1]),
            col_xpos(xx, s.len() as int, i - 1),
            col_xlen(xx, s.len() as int, i - 1),
        )
    }
}

/// Mirror a rectangle across the main diagonal.
pub open spec fn swap_axes(r: RectSpec) -> RectSpec {
    RectSpec { ylen: r.xlen, xlen: r.ylen, ypos: r.xpos, xpos: r.ypos }
}

/// The row-major grid is the column-major grid of the transposed terminal,
/// mirrored back.
pub open spec fn grid_yx(yy: int, xx: int, s: Seq<usize>) -> Seq<RectSpec> {
    swap_all(grid_xy(xx, yy, s, s.len() as int))
}

/// The grid a layout produces on a `yy` by `xx` terminal.
pub open spec fn grid_of(yy: int, xx: int, s: Seq<usize>, rotate: bool) -> Seq<RectSpec> {
    if rotate {
        grid_yx(yy, xx, s)
    } else {
        grid_xy(yy, xx, s, s.len() as int)
    }
}

/// Do the half-open intervals `[p1, p1 + l1)` and `[p2, p2 + l2)` share a point?
pub open spec fn intervals_intersect(p1: int, l1: int, p2: int, l2: int) -> bool {
    vstd::math::max(p1, p2) < vstd::math::min(p1 + l1, p2 + l2)
}

/// Two rectangles overlap when they share at least one cell.
pub open spec fn rects_overlap(a: RectSpec, b: RectSpec) -> bool {
    intervals_intersect(a.ypos, a.ylen, b.ypos, b.ylen) && intervals_intersect(
        a.xpos,
        a.xlen,
        b.xpos,
        b.xlen,
    )
}

/// A rectangle lies inside the `yy` by `xx` terminal.
pub open spec fn rect_in_bounds(r: RectSpec, yy: int, xx: int) -> bool {
    &&& 0 <= r.ypos
    &&& 0 <= r.ylen
    &&& r.ypos + r.ylen <= yy
    &&& 0 <= r.xpos
    &&& 0 <= r.xlen
    &&& r.xpos + r.xlen <= xx
}

/// Area of a rectangle, in cells.
pub open spec fn rect_area(r: RectSpec) -> int {
    r.ylen * r.xlen
}

/// Sum of the areas of a sequence of rectangles.
pub open spec fn total_area(rs: Seq<RectSpec>) -> int
    decreases rs.len(),
{
    if rs.len() == 0 {
        0
    } else {
        total_area(rs.drop_last()) + rect_area(rs.last())
    }
}

/// Compute the column-major grid.  Fails only on an empty layout.
pub fn layout_xy(yy: usize, xx: usize, layout: &Vec<usize>) -> (res: Result<Vec<Rect>, Error>)
    ensures
        layout@.len() == 0 <==> res is Err,
        res is Err ==> res == Result::<Vec<Rect>, Error>::Err(Error::BadLayout),
        res is Ok ==> rects_view(res->Ok_0@) == grid_xy(
            yy as int,
            xx as int,
            layout@,
            layout@.len() as int,
        ),
{
    let x = layout.len();
    if x == 0 {
        return Err(Error::BadLayout);
    }
    let xq = xx / x;
    let xr = xx % x;
    let mut res: Vec<Rect> = Vec::new();

    proof {
        assert(rects_view(res@) =~= grid_xy(yy as int, xx as int, layout@, 0));
    }
    for i in 0..x
        invariant
            x == layout@.len(),
            xq == xx as int / x as int,
            xr == xx as int % x as int,
            rects_view(res@) == grid_xy(yy as int, xx as int, layout@, i as int),
    {
        proof {
            lemma_div_pos_is_pos(xx as int, x as int);
            lemma_remainder_lower(xx as int, x as int);
            lemma_mul_inequality(i as int, x as int, xq as int);
            lemma_mul_is_commutative(x as int, xq as int);
        }
        let xpos = xq * i;
        let mut xlen = xq;
        if i == x - 1 {
            proof {
                assert(xq + xr <= xx) by {
                    lemma_fundamental_div_mod(xx as int, x as int);
                    lemma_mul_inequality(1, x as int, xq as int);
                    lemma_mul_is_commutative(x as int, xq as int);
                }
            }
            xlen = xlen + xr;
        }
        let mut y = layout[i];
        if y == 0 {
            y = 1;
        }
        let yq = yy / y;
        let yr = yy % y;

        let ghost gcol = column_rects(
            yy as int,
            coerce_panes(layout@[i as int]),
            col_xpos(xx as int, x as int, i as int),
            col_xlen(xx as int, x as int, i as int),
        );
        let ghost gpre = rects_view(res@);

        for j in 0..y
            invariant
                x == layout@.len(),
                i < x,
                xq == xx as int / x as int,
                xr == xx as int % x as int,
                y == coerce_panes(layout@[i as int]),
                yq == yy as int / y as int,
                yr == yy as int % y as int,
                xpos == col_xpos(xx as int, x as int, i as int),
                xlen == col_xlen(xx as int, x as int, i as int),
                gcol == column_rects(
                    yy as int,
                    y as int,
                    xpos as int,
                    xlen as int,
                ),
                gpre == grid_xy(yy as int, xx as int, layout@, i as int),
                rects_view(res@) == gpre + gcol.take(j as int),
        {
            proof {
                lemma_div_pos_is_pos(yy as int, y as int);
                lemma_remainder_lower(yy as int, y as int);
                lemma_mul_inequality(j as int, y as int, yq as int);
                lemma_mul_is_commutative(y as int, yq as int);
            }
            let ypos = yq * j;
            let mut ylen = yq;
            if j == y - 1 {
                proof {
                    assert(yq + yr <= yy) by {
                        lemma_fundamental_div_mod(yy as int, y as int);
                        lemma_mul_inequality(1, y as int, yq as int);
                        lemma_mul_is_commutative(y as int, yq as int);
                    }
                }
                ylen = ylen + yr;
            }
            let ghost prev = res@;
            res.push(Rect { ylen, xlen, ypos, xpos });
            proof {
                assert(gcol.take(j + 1) =~= gcol.take(j as int).push(gcol[j as int]));
                assert(rects_view(res@) =~= rects_view(prev).push(
                    rect_view(Rect { ylen, xlen, ypos, xpos }),
                ));
                assert(rect_view(Rect { ylen, xlen, ypos, xpos }) =~= gcol[j as int]);
                assert((gpre + gcol.take(j as int)).push(gcol[j as int]) =~= gpre + gcol.take(
                    j + 1,
                ));
                assert(rects_view(res@) =~= gpre + gcol.take(j + 1));
            }
        }
        proof {
            assert(gcol.take(y as int) =~= gcol);
        }
    }
    Ok(res)
}

/// Compute the row-major grid.  Fails only on an empty layout.
pub fn layout_yx(yy: usize, xx: usize, layout: &Vec<usize>) -> (res: Result<Vec<Rect>, Error>)
    ensures
        layout@.len() == 0 <==> res is Err,
        res is Err ==> res == Result::<Vec<Rect>, Error>::Err(Error::BadLayout),
        res is Ok ==> rects_view(res->Ok_0@) == grid_yx(
            yy as int,
            xx as int,
            layout@,
        ),
{
    let y = layout.len();
    if y == 0 {
        return Err(Error::BadLayout);
    }
    let yq = yy / y;
    let yr = yy % y;
    let mut res: Vec<Rect> = Vec::new();

    let ghost swapped = swap_all(grid_xy(xx as int, yy as int, layout@, 0));
    proof {
        assert(rects_view(res@) =~= swapped);
    }
    for i in 0..y
        invariant
            y == layout@.len(),
            yq == yy as int / y as int,
            yr == yy as int % y as int,
            rects_view(res@) == swap_all(grid_xy(xx as int, yy as int, layout@, i as int)),
    {
        proof {
            lemma_div_pos_is_pos(yy as int, y as int);
            lemma_remainder_lower(yy as int, y as int);
            lemma_mul_inequality(i as int, y as int, yq as int);
            lemma_mul_is_commutative(y as int, yq as int);
        }
        let ypos = yq * i;
        let mut ylen = yq;
        if i == y - 1 {
            proof {
                assert(yq + yr <= yy) by {
                    lemma_fundamental_div_mod(yy as int, y as int);
                    lemma_mul_inequality(1, y as int, yq as int);
                    lemma_mul_is_commutative(y as int, yq as int);
                }
            }
            ylen = ylen + yr;
        }
        let mut x = layout[i];
        if x == 0 {
            x = 1;
        }
        let xq = xx / x;
        let xr = xx % x;

        let ghost gcol = column_rects(
            xx as int,
            coerce_panes(layout@[i as int]),
            col_xpos(yy as int, y as int, i as int),
            col_xlen(yy as int, y as int, i as int),
        );
        let ghost gpre = rects_view(res@);

        for j in 0..x
            invariant
                y == layout@.len(),
                i < y,
                yq == yy as int / y as int,
                yr == yy as int % y as int,
                x == coerce_panes(layout@[i as int]),
                xq == xx as int / x as int,
                xr == xx as int % x as int,
                ypos == col_xpos(yy as int, y as int, i as int),
                ylen == col_xlen(yy as int, y as int, i as int),
                gcol == column_rects(
                    xx as int,
                    x as int,
                    ypos as int,
                    ylen as int,
                ),
                gpre == swap_all(grid_xy(xx as int, yy as int, layout@, i as int)),
                rects_view(res@) == gpre + swap_all(gcol.take(j as int)),
        {
            proof {
                lemma_div_pos_is_pos(xx as int, x as int);
                lemma_remainder_lower(xx as int, x as int);
                lemma_mul_inequality(j as int, x as int, xq as int);
                lemma_mul_is_commutative(x as int, xq as int);
            }
            let xpos = xq * j;
            let mut xlen = xq;
            if j == x - 1 {
                proof {
                    assert(xq + xr <= xx) by {
                        lemma_fundamental_div_mod(xx as int, x as int);
                        lemma_mul_inequality(1, x as int, xq as int);
                        lemma_mul_is_commutative(x as int, xq as int);
                    }
                }
                xlen = xlen + xr;
            }
            let ghost prev = res@;
            res.push(Rect { ylen, xlen, ypos, xpos });
            proof {
                assert(gcol.take(j + 1) =~= gcol.take(j as int).push(gcol[j as int]));
                assert(swap_all(gcol.take(j as int).push(gcol[j as int])) =~= swap_all(
                    gcol.take(j as int),
                ).push(swap_axes(gcol[j as int])));
                assert(rects_view(res@) =~= rects_view(prev).push(
                    rect_view(Rect { ylen, xlen, ypos, xpos }),
                ));
                assert(rect_view(Rect { ylen, xlen, ypos, xpos }) =~= swap_axes(gcol[j as int]));
                assert((gpre + swap_all(gcol.take(j as int))).push(swap_axes(gcol[j as int]))
                    =~= gpre + swap_all(gcol.take(j + 1)));
                assert(rects_view(res@) =~= gpre + swap_all(gcol.take(j + 1)));
            }
        }
        proof {
            assert(gcol.take(x as int) =~= gcol);
            assert(swap_all(grid_xy(xx as int, yy as int, layout@, i + 1)) =~= gpre + swap_all(
                gcol,
            ));
        }
    }
    proof {
        assert(rects_view(res@) =~= grid_yx(yy as int, xx as int, layout@));
    }
    Ok(res)
}

/// A sequence of rectangles tiles nothing twice on a `yy` by `xx` terminal:
/// every rectangle lies inside the terminal and no two share a cell.
pub open spec fn rects_tile(g: Seq<RectSpec>, yy: int, xx: int) -> bool {
    &&& forall|k: int| 0 <= k < g.len() ==> rect_in_bounds(#[trigger] g[k], yy, xx)
    &&& forall|k1: int, k2: int|
        0 <= k1 < k2 < g.len() ==> !rects_overlap(#[trigger] g[k1], #[trigger] g[k2])
}

/// Every rectangle of a grid is large enough to carry a bordered window:
/// at least two cells in each direction.
pub open spec fn grid_fits(g: Seq<RectSpec>) -> bool {
    forall|k: int| 0 <= k < g.len() ==> (#[trigger] g[k]).ylen >= 2 && g[k].xlen >= 2
}

/// How far to the right the first `i` columns may reach.
pub open spec fn col_limit(xx: int, n: int, i: int) -> int {
    if i == n {
        xx
    } else {
        (xx / n) * i
    }
}

proof fn lemma_total_area_concat(a: Seq<RectSpec>, b: Seq<RectSpec>)
    ensures
        total_area(a + b) == total_area(a) + total_area(b),
    decreases b.len(),
{
    if b.len() == 0 {
        assert(a + b =~= a);
    } else {
        assert((a + b).drop_last() =~= a + b.drop_last());
        assert((a + b).last() == b.last());
        lemma_total_area_concat(a, b.drop_last());
    }
}

/// The first `j` panes of a column cover the column up to height `(yy/y)*j`;
/// all `y` of them cover exactly `yy * xlen` cells.
proof fn lemma_column_area_prefix(yy: int, y: int, xpos: int, xlen: int, j: int)
    requires
        0 <= yy,
        1 <= y,
        0 <= j <= y,
    ensures
        total_area(column_rects(yy, y, xpos, xlen).take(j)) == if j < y {
            ((yy / y) * j) * xlen
        } else {
            yy * xlen
        },
    decreases j,
{
    let col = column_rects(yy, y, xpos, xlen);
    let q = yy / y;
    let r = yy % y;
    if j == 0 {
        assert(col.take(0) =~= Seq::<RectSpec>::empty());
        assert(total_area(col.take(0)) == 0);
        assert(((yy / y) * 0) * xlen == 0) by (nonlinear_arith);
    } else {
        lemma_column_area_prefix(yy, y, xpos, xlen, j - 1);
        assert(col.take(j).drop_last() =~= col.take(j - 1));
        assert(col.take(j).last() == col[j - 1]);
        if j - 1 < y - 1 {
            assert(total_area(col.take(j)) == (q * (j - 1)) * xlen + q * xlen);
            assert((q * (j - 1)) * xlen + q * xlen == (q * j) * xlen) by (nonlinear_arith);
            assert(total_area(col.take(j)) == ((yy / y) * j) * xlen);
        } else {
            lemma_fundamental_div_mod(yy, y);
            assert(total_area(col.take(j)) == (q * (y - 1)) * xlen + (q + r) * xlen);
            assert(yy == y * q + r);
            assert((q * (y - 1)) * xlen + (q + r) * xlen == yy * xlen) by (nonlinear_arith)
                requires
                    yy == y * q + r,
            ;
        }
    }
}

/// The first `i` columns cover the terminal up to width `(xx/n)*i`; all `n`
/// of them cover exactly the whole terminal.
proof fn lemma_grid_xy_area(yy: int, xx: int, s: Seq<usize>, i: int)
    requires
        0 <= yy,
        0 <= xx,
        1 <= s.len(),
        0 <= i <= s.len(),
    ensures
        total_area(grid_xy(yy, xx, s, i)) == if i < s.len() {
            ((xx / s.len() as int) * i) * yy
        } else {
            xx * yy
        },
    decreases i,
{
    let n = s.len() as int;
    let q = xx / n;
    let r = xx % n;
    if i > 0 {
        lemma_grid_xy_area(yy, xx, s, i - 1);
        let y = coerce_panes(s[i - 1]);
        let xp = col_xpos(xx, n, i - 1);
        let xl = col_xlen(xx, n, i - 1);
        let col = column_rects(yy, y, xp, xl);
        lemma_total_area_concat(grid_xy(yy, xx, s, i - 1), col);
        assert(col.take(y) =~= col);
        lemma_column_area_prefix(yy, y, xp, xl, y);
        if i < n {
            assert(total_area(grid_xy(yy, xx, s, i)) == (q * (i - 1)) * yy + yy * q);
            assert((q * (i - 1)) * yy + yy * q == (q * i) * yy) by (nonlinear_arith);
        } else {
            lemma_fundamental_div_mod(xx, n);
            assert(total_area(grid_xy(yy, xx, s, i)) == (q * (n - 1)) * yy + yy * (q + r));
            assert(xx == n * q + r);
            assert((q * (n - 1)) * yy + yy * (q + r) == xx * yy) by (nonlinear_arith)
                requires
                    xx == n * q + r,
            ;
        }
    }
}

proof fn lemma_grid_xy_count(yy: int, xx: int, s: Seq<usize>, i: int)
    requires
        0 <= i <= s.len(),
    ensures
        grid_xy(yy, xx, s, i).len() == panes_total(s.take(i)),
    decreases i,
{
    if i > 0 {
        lemma_grid_xy_count(yy, xx, s, i - 1);
        assert(s.take(i).drop_last() =~= s.take(i - 1));
        assert(s.take(i).last() == s[i - 1]);
    }
}

/// The panes of one column lie inside the terminal's height and are pairwise
/// disjoint.
proof fn lemma_column_props(yy: int, y: int, xpos: int, xlen: int)
    requires
        0 <= yy,
        1 <= y,
    ensures
        forall|j: int|
            0 <= j < y ==> {
                &&& 0 <= (#[trigger] column_rects(yy, y, xpos, xlen)[j]).ypos
                &&& 0 <= column_rects(yy, y, xpos, xlen)[j].ylen
                &&& column_rects(yy, y, xpos, xlen)[j].ypos + column_rects(
                    yy,
                    y,
                    xpos,
                    xlen,
                )[j].ylen <= yy
            },
        forall|j1: int, j2: int|
            0 <= j1 < j2 < y ==> !rects_overlap(
                #[trigger] column_rects(yy, y, xpos, xlen)[j1],
                #[trigger] column_rects(yy, y, xpos, xlen)[j2],
            ),
{
    let q = yy / y;
    let r = yy % y;
    lemma_div_pos_is_pos(yy, y);
    lemma_fundamental_div_mod(yy, y);
    lemma_mul_is_commutative(y, q);
    assert(0 <= r) by {
        lemma_remainder(yy, y);
        lemma_mul_is_commutative(yy / y, y);
    }
    assert forall|j: int| 0 <= j < y implies {
        &&& 0 <= (#[trigger] column_rects(yy, y, xpos, xlen)[j]).ypos
        &&& 0 <= column_rects(yy, y, xpos, xlen)[j].ylen
        &&& column_rects(yy, y, xpos, xlen)[j].ypos + column_rects(yy, y, xpos, xlen)[j].ylen
            <= yy
    } by {
        assert(0 <= q * j) by (nonlinear_arith)
            requires
                0 <= q,
                0 <= j,
        ;
        if j < y - 1 {
            assert(q * j + q <= yy) by (nonlinear_arith)
                requires
                    yy == y * q + r,
                    0 <= r,
                    0 <= q,
                    j + 2 <= y,
            ;
        } else {
            assert(q * (y - 1) + (q + r) == yy) by (nonlinear_arith)
                requires
                    yy == y * q + r,
            ;
        }
    }
    assert forall|j1: int, j2: int| 0 <= j1 < j2 < y implies !rects_overlap(
        #[trigger] column_rects(yy, y, xpos, xlen)[j1],
        #[trigger] column_rects(yy, y, xpos, xlen)[j2],
    ) by {
        assert(q * j1 + q <= q * j2) by (nonlinear_arith)
            requires
                0 <= q,
                j1 + 1 <= j2,
        ;
    }
}

/// The first `i` columns stay left of `col_limit(xx, n, i)`, lie inside the
/// terminal, and are pairwise disjoint.
proof fn lemma_grid_xy_props(yy: int, xx: int, s: Seq<usize>, i: int)
    requires
        0 <= yy,
        0 <= xx,
        1 <= s.len(),
        0 <= i <= s.len(),
    ensures
        forall|k: int|
            0 <= k < grid_xy(yy, xx, s, i).len() ==> {
                &&& rect_in_bounds(#[trigger] grid_xy(yy, xx, s, i)[k], yy, xx)
                &&& grid_xy(yy, xx, s, i)[k].xpos + grid_xy(yy, xx, s, i)[k].xlen <= col_limit(
                    xx,
                    s.len() as int,
                    i,
                )
            },
        forall|k1: int, k2: int|
            0 <= k1 < k2 < grid_xy(yy, xx, s, i).len() ==> !rects_overlap(
                #[trigger] grid_xy(yy, xx, s, i)[k1],
                #[trigger] grid_xy(yy, xx, s, i)[k2],
            ),
    decreases i,
{
    let n = s.len() as int;
    let q = xx / n;
    let r = xx % n;
    lemma_div_pos_is_pos(xx, n);
    lemma_fundamental_div_mod(xx, n);
    lemma_mul_is_commutative(n, q);
    assert(0 <= r) by {
        lemma_remainder(xx, n);
        lemma_mul_is_commutative(xx / n, n);
    }
    if i > 0 {
        lemma_grid_xy_props(yy, xx, s, i - 1);
        let g0 = grid_xy(yy, xx, s, i - 1);
        let g = grid_xy(yy, xx, s, i);
        let y = coerce_panes(s[i - 1]);
        let xp = col_xpos(xx, n, i - 1);
        let xl = col_xlen(xx, n, i - 1);
        let col = column_rects(yy, y, xp, xl);
        lemma_column_props(yy, y, xp, xl);
        lemma_mul_nonnegative(q, i - 1);
        // the column's right edge is the next column limit
        assert(xp + xl <= col_limit(xx, n, i)) by {
            if i < n {
                assert(q * (i - 1) + q == q * i) by (nonlinear_arith);
            } else {
                assert(q * (n - 1) + (q + r) == n * q + r) by (nonlinear_arith);
            }
        }
        assert(col_limit(xx, n, i) <= xx) by {
            if i < n {
                assert(q * i <= n * q) by (nonlinear_arith)
                    requires
                        0 <= q,
                        i <= n,
                ;
            }
        }
        assert forall|k: int| 0 <= k < g.len() implies {
            &&& rect_in_bounds(#[trigger] g[k], yy, xx)
            &&& g[k].xpos + g[k].xlen <= col_limit(xx, n, i)
        } by {
            if k < g0.len() {
                assert(g[k] == g0[k]);
            } else {
                assert(g[k] == col[k - g0.len()]);
            }
        }
        assert forall|k1: int, k2: int| 0 <= k1 < k2 < g.len() implies !rects_overlap(
            #[trigger] g[k1],
            #[trigger] g[k2],
        ) by {
            if k2 < g0.len() {
                assert(g[k1] == g0[k1]);
                assert(g[k2] == g0[k2]);
            } else if k1 >= g0.len() {
                assert(g[k1] == col[k1 - g0.len()]);
                assert(g[k2] == col[k2 - g0.len()]);
            } else {
                assert(g[k1] == g0[k1]);
                assert(g[k2] == col[k2 - g0.len()]);
                // the old columns end at the new column's left edge
                assert(g0[k1].xpos + g0[k1].xlen <= xp);
            }
        }
    }
}

proof fn lemma_swap_area(g: Seq<RectSpec>)
    ensures
        total_area(swap_all(g)) == total_area(g),
    decreases g.len(),
{
    if g.len() == 0 {
        assert(swap_all(g) =~= Seq::<RectSpec>::empty());
    } else {
        assert(swap_all(g).drop_last() =~= swap_all(g.drop_last()));
        assert(swap_all(g).last() == swap_axes(g.last()));
        lemma_swap_area(g.drop_last());
        lemma_mul_is_commutative(g.last().ylen, g.last().xlen);
    }
}

/// Layout coverage, in either orientation: the grid emitted for a non-empty
/// layout on a `yy` by `xx` terminal has exactly as many rectangles as the
/// layout asks panes (zero entries coerced to one), every rectangle lies
/// inside the terminal, no two rectangles overlap, and the areas sum to the
/// full terminal area.
pub proof fn lemma_layout_tiling(yy: int, xx: int, s: Seq<usize>, rotate: bool)
    requires
        0 <= yy,
        0 <= xx,
        1 <= s.len(),
    ensures
        grid_of(yy, xx, s, rotate).len() == panes_total(s),
        total_area(grid_of(yy, xx, s, rotate)) == yy * xx,
        rects_tile(grid_of(yy, xx, s, rotate), yy, xx),
{
    let n = s.len() as int;
    if rotate {
        let g = grid_xy(xx, yy, s, n);
        let gs = grid_of(yy, xx, s, rotate);
        lemma_grid_xy_count(xx, yy, s, n);
        assert(s.take(n) =~= s);
        lemma_grid_xy_area(xx, yy, s, n);
        lemma_swap_area(g);
        lemma_mul_is_commutative(yy, xx);
        lemma_grid_xy_props(xx, yy, s, n);
        assert forall|k: int| 0 <= k < gs.len() implies rect_in_bounds(
            #[trigger] gs[k],
            yy,
            xx,
        ) by {
            assert(gs[k] == swap_axes(g[k]));
            assert(rect_in_bounds(g[k], xx, yy));
        }
        assert forall|k1: int, k2: int| 0 <= k1 < k2 < gs.len() implies !rects_overlap(
            #[trigger] gs[k1],
            #[trigger] gs[k2],
        ) by {
            assert(gs[k1] == swap_axes(g[k1]));
            assert(gs[k2] == swap_axes(g[k2]));
            assert(!rects_overlap(g[k1], g[k2]));
        }
    } else {
        lemma_grid_xy_count(yy, xx, s, n);
        assert(s.take(n) =~= s);
        lemma_grid_xy_area(yy, xx, s, n);
        lemma_mul_is_commutative(xx, yy);
        lemma_grid_xy_props(yy, xx, s, n);
    }
}

/// Compute the grid for a layout, honouring the rotation flag.
pub fn layout_rects(yy: usize, xx: usize, layout: &Vec<usize>, rotate: bool) -> (res: Result<
    Vec<Rect>,
    Error,
>)
    ensures
        layout@.len() == 0 <==> res is Err,
        res is Err ==> res == Result::<Vec<Rect>, Error>::Err(Error::BadLayout),
        res is Ok ==> rects_view(res->Ok_0@) == grid_of(
            yy as int,
            xx as int,
            layout@,
            rotate,
        ),
{
    if rotate {
        layout_yx(yy, xx, layout)
    } else {
        layout_xy(yy, xx, layout)
    }
}

} // verus!
