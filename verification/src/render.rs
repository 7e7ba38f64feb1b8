//! Rasterization of world-space rectangles onto the terminal grid.
//!
//! Each `TextureRect` is a glyph-filled, axis-aligned box given by its
//! center and size. `render` projects every rectangle through the camera
//! into the display buffer, nearest (highest z) first; the first rectangle
//! to reach a cell keeps it, which yields correct occlusion in one pass.
//!
//! All geometry is exact integer arithmetic on sub-cell units; corners are
//! doubled internally so that centered boxes need no fractional values.

use vstd::prelude::*;
use crate::UNITS_PER_CELL;
use crate::camera::TerminalCamera2d;
use crate::display::{BLANK, VirtualDisplayBuffer};
use crate::geometry::{Vec2i, normalize_point, normalized_point_to_tile};
use vstd::math::{max, min};

verus! {

/// A rectangular glyph-painted region: world center `loc`, world size
/// `dim` (both in sub-cell units), painted with `texture`, at depth
/// `loc_z` (larger is nearer).
#[derive(Clone, Copy, PartialEq, Eq, Structural, Debug)]
pub struct TextureRect {
    pub texture: char,
    pub dim: Vec2i,
    pub loc: Vec2i,
    pub loc_z: i64,
}

impl TextureRect {
    /// Non-negative size, coordinates small enough for exact projection.
    pub open spec fn wf(self) -> bool {
        &&& self.dim.size_wf()
        &&& self.loc.bounded()
    }
}

/// A half-open range of grid cells: columns `x0..x1`, rows `y0..y1`.
#[derive(Clone, Copy, PartialEq, Eq, Structural, Debug)]
pub struct CellRange {
    pub x0: u16,
    pub y0: u16,
    pub x1: u16,
    pub y1: u16,
}

/// One axis of the projection, on doubled sub-cell units. The viewport
/// spans `[2c-d, 2c+d]` around center `c` with size `d`; likewise the
/// rectangle. An empty overlap projects to nothing. In tile mode a world
/// cell maps 1:1 onto a grid cell (truncating toward zero, clamped to the
/// grid); in stretch mode the overlap is normalized against the viewport
/// and scaled to the grid's `cells`.
pub open spec fn axis_cells(
    cam_c: int,
    cam_d: int,
    rect_c: int,
    rect_d: int,
    cells: u16,
    stretch: bool,
) -> Option<(int, int)> {
    let vmin = 2 * cam_c - cam_d;
    let vmax = 2 * cam_c + cam_d;
    let rmin = 2 * rect_c - rect_d;
    let rmax = 2 * rect_c + rect_d;
    let omin = max(vmin, rmin);
    let omax = min(vmax, rmax);
    if omax <= omin {
        None
    } else if stretch {
        Some(
            (
                (omin - vmin) * (cells as int) / (vmax - vmin),
                (omax - vmin) * (cells as int) / (vmax - vmin),
            ),
        )
    } else {
        Some(
            (
                min((omin - vmin) / (2 * UNITS_PER_CELL as int), cells as int),
                min((omax - vmin) / (2 * UNITS_PER_CELL as int), cells as int),
            ),
        )
    }
}

/// Where a rectangle lands on a `width x height` grid seen through the
/// camera, if anywhere.
pub open spec fn project_spec(cam: TerminalCamera2d, r: TextureRect, width: u16, height: u16) -> Option<
    (int, int, int, int),
> {
    let xs = axis_cells(cam.loc.x as int, cam.dim.x as int, r.loc.x as int, r.dim.x as int, width, cam.settings.stretch);
    let ys = axis_cells(cam.loc.y as int, cam.dim.y as int, r.loc.y as int, r.dim.y as int, height, cam.settings.stretch);
    match (xs, ys) {
        (Some((x0, x1)), Some((y0, y1))) => Some((x0, y0, x1, y1)),
        _ => None,
    }
}

/// Whether the projection of `r` reaches the cell at (`col`, `row`).
pub open spec fn covers(cam: TerminalCamera2d, r: TextureRect, width: u16, height: u16, col: int, row: int) -> bool {
    match project_spec(cam, r, width, height) {
        Some((x0, y0, x1, y1)) => x0 <= col < x1 && y0 <= row < y1,
        None => false,
    }
}

/// Dividing a smaller non-negative value by a positive divisor gives a
/// smaller quotient.
proof fn lemma_div_ordered(a: int, b: int, d: int)
    requires
        0 <= a <= b,
        0 < d,
    ensures
        0 <= a / d <= b / d,
{
    assert(0 <= a / d && a / d <= b / d) by (nonlinear_arith)
        requires 0 <= a <= b && 0 < d;
}

/// Scaling preserves order: `a*c/d <= b*c/d` for `a <= b`.
proof fn lemma_scale_ordered(a: int, b: int, c: int, d: int)
    requires
        0 <= a <= b,
        0 <= c,
        0 < d,
    ensures
        a * c / d <= b * c / d,
{
    assert(a * c <= b * c) by (nonlinear_arith)
        requires a <= b && 0 <= c;
    lemma_div_ordered(a * c, b * c, d);
    assert(0 <= a * c) by (nonlinear_arith)
        requires 0 <= a && 0 <= c;
}

/// Project one rectangle through the camera onto the grid. Degenerate
/// geometry (no overlap, or a zero-sized viewport) yields `None` rather
/// than an error.
pub fn project(cam: &TerminalCamera2d, r: &TextureRect, width: u16, height: u16) -> (res: Option<
    CellRange,
>)
    requires
        cam.wf(),
        r.wf(),
    ensures
        match res {
            Some(cr) => {
                &&& project_spec(*cam, *r, width, height) == Some(
                    (cr.x0 as int, cr.y0 as int, cr.x1 as int, cr.y1 as int),
                )
                &&& cr.x0 <= cr.x1 <= width
                &&& cr.y0 <= cr.y1 <= height
            },
            None => project_spec(*cam, *r, width, height) is None,
        },
{
    let stretch = cam.settings.stretch;
    let vminx: i64 = 2 * cam.loc.x - cam.dim.x;
    let vmaxx: i64 = 2 * cam.loc.x + cam.dim.x;
    let vminy: i64 = 2 * cam.loc.y - cam.dim.y;
    let vmaxy: i64 = 2 * cam.loc.y + cam.dim.y;
    let rminx: i64 = 2 * r.loc.x - r.dim.x;
    let rmaxx: i64 = 2 * r.loc.x + r.dim.x;
    let rminy: i64 = 2 * r.loc.y - r.dim.y;
    let rmaxy: i64 = 2 * r.loc.y + r.dim.y;
    let ominx: i64 = if vminx >= rminx { vminx } else { rminx };
    let omaxx: i64 = if vmaxx <= rmaxx { vmaxx } else { rmaxx };
    let ominy: i64 = if vminy >= rminy { vminy } else { rminy };
    let omaxy: i64 = if vmaxy <= rmaxy { vmaxy } else { rmaxy };
    if omaxx <= ominx || omaxy <= ominy {
        return None;
    }
    if stretch {
        // Both axes overlap, so the viewport has positive extent on both
        // and normalization is defined.
        let norm_min = normalize_point(
            Vec2i::new(ominx, ominy),
            Vec2i::new(vmaxx, vmaxy),
            Vec2i::new(vminx, vminy),
        );
        let norm_max = normalize_point(
            Vec2i::new(omaxx, omaxy),
            Vec2i::new(vmaxx, vmaxy),
            Vec2i::new(vminx, vminy),
        );
        let (x0, y0) = normalized_point_to_tile(norm_min, width, height);
        let (x1, y1) = normalized_point_to_tile(norm_max, width, height);
        proof {
            lemma_scale_ordered(
                ominx - vminx,
                omaxx - vminx,
                width as int,
                vmaxx - vminx,
            );
            lemma_scale_ordered(
                ominy - vminy,
                omaxy - vminy,
                height as int,
                vmaxy - vminy,
            );
        }
        Some(CellRange { x0, y0, x1, y1 })
    } else {
        let cell2: u64 = (2 * UNITS_PER_CELL) as u64;
        let sx: u64 = (ominx - vminx) as u64 / cell2;
        let ex: u64 = (omaxx - vminx) as u64 / cell2;
        let sy: u64 = (ominy - vminy) as u64 / cell2;
        let ey: u64 = (omaxy - vminy) as u64 / cell2;
        let x0: u16 = if sx >= width as u64 { width } else { sx as u16 };
        let x1: u16 = if ex >= width as u64 { width } else { ex as u16 };
        let y0: u16 = if sy >= height as u64 { height } else { sy as u16 };
        let y1: u16 = if ey >= height as u64 { height } else { ey as u16 };
        proof {
            lemma_div_ordered(ominx - vminx, omaxx - vminx, 2 * UNITS_PER_CELL as int);
            lemma_div_ordered(ominy - vminy, omaxy - vminy, 2 * UNITS_PER_CELL as int);
        }
        Some(CellRange { x0, y0, x1, y1 })
    }
}

/// The painting priority between two rectangles of the input list:
/// strictly nearer (greater z) paints first; at equal depth the earlier
/// one in the input keeps its precedence (sort stability).
pub open spec fn beats(rects: Seq<TextureRect>, i: int, j: int) -> bool {
    ||| rects[i].loc_z > rects[j].loc_z
    ||| (rects[i].loc_z == rects[j].loc_z && i < j)
}

/// Exec comparison mirroring [`beats`].
fn rect_before(rects: &Vec<TextureRect>, a: usize, b: usize) -> (r: bool)
    requires
        a < rects@.len(),
        b < rects@.len(),
    ensures
        r == beats(rects@, a as int, b as int),
{
    let za = rects[a].loc_z;
    let zb = rects[b].loc_z;
    za > zb || (za == zb && a < b)
}

/// Whether the value `v` appears somewhere in `order`.
pub open spec fn appears(order: Seq<usize>, v: int) -> bool {
    exists|p: int| 0 <= p < order.len() && (#[trigger] order[p]) == v
}

/// A sequence of rectangle indices in painting order: sorted by `beats`.
pub open spec fn sorted_order(rects: Seq<TextureRect>, order: Seq<usize>) -> bool {
    &&& order.len() == rects.len()
    &&& forall|p: int| 0 <= p < order.len() ==> (#[trigger] order[p]) < rects.len()
    &&& forall|p: int, q: int|
        0 <= p < q < order.len() ==> beats(rects, #[trigger] order[p] as int, #[trigger] order[q] as int)
    &&& forall|v: int| 0 <= v < rects.len() ==> #[trigger] appears(order, v)
}

/// Compute the painting order of the rectangles: indices sorted by
/// descending depth, input order among equal depths (a stable sort).
fn sort_z_order(rects: &Vec<TextureRect>) -> (order: Vec<usize>)
    ensures
        sorted_order(rects@, order@),
{
    let n = rects.len();
    let mut order: Vec<usize> = Vec::new();
    let mut i: usize = 0;
    while i < n
        invariant
            i <= n,
            n == rects@.len(),
            order@.len() == i,
            forall|p: int| 0 <= p < i ==> (#[trigger] order@[p]) < i,
            forall|p: int, q: int|
                0 <= p < q < i ==> beats(rects@, #[trigger] order@[p] as int, #[trigger] order@[q] as int),
            forall|v: int| 0 <= v < i ==> #[trigger] appears(order@, v),
        decreases n - i,
    {
        let ghost prev = order@;
        // Find the first already-placed index that `i` outranks.
        let mut k: usize = 0;
        while k < order.len() && rect_before(rects, order[k], i)
            invariant
                k <= order@.len(),
                order@.len() == i,
                i < n,
                n == rects@.len(),
                forall|p: int| 0 <= p < i ==> (#[trigger] order@[p]) < i,
                forall|p: int| 0 <= p < k ==> beats(rects@, #[trigger] order@[p] as int, i as int),
                forall|p: int, q: int|
                    0 <= p < q < i ==> beats(rects@, #[trigger] order@[p] as int, #[trigger] order@[q] as int),
            decreases order@.len() - k,
        {
            k = k + 1;
        }
        proof {
            if k < order@.len() {
                // `i` was never placed before, so totality of the priority
                // turns the failed test around.
                assert(order@[k as int] < i);
                assert(!beats(rects@, order@[k as int] as int, i as int));
                assert(beats(rects@, i as int, order@[k as int] as int));
            }
        }
        order.insert(k, i);
        proof {
            prev.insert_ensures(k as int, i);
            assert forall|p: int, q: int| 0 <= p < q < i + 1 implies beats(
                rects@,
                #[trigger] order@[p] as int,
                #[trigger] order@[q] as int,
            ) by {
                if p < k && q == k {
                    assert(order@[p] == prev[p]);
                } else if p == k {
                    assert(order@[q] == prev[q - 1]);
                    assert(k <= q - 1 < i);
                    if k < q - 1 {
                        assert(beats(rects@, prev[k as int] as int, prev[q - 1] as int));
                    }
                } else if q < k {
                    assert(order@[p] == prev[p] && order@[q] == prev[q]);
                } else if p < k && q > k {
                    assert(order@[p] == prev[p] && order@[q] == prev[q - 1]);
                    if p < k && k <= q - 1 {
                        if p < q - 1 {
                            assert(beats(rects@, prev[p] as int, prev[q - 1] as int));
                        } else {
                            assert(p == q - 1 && p < k && k <= q - 1);
                        }
                    }
                } else {
                    assert(k < p < q);
                    assert(order@[p] == prev[p - 1] && order@[q] == prev[q - 1]);
                    assert(beats(rects@, prev[p - 1] as int, prev[q - 1] as int));
                }
            }
            assert forall|p: int| 0 <= p < i + 1 implies (#[trigger] order@[p]) < i + 1 by {
                if p < k {
                    assert(order@[p] == prev[p]);
                } else if p == k {
                    assert(order@[p] == i);
                } else {
                    assert(order@[p] == prev[p - 1]);
                }
            }
            assert forall|v: int| 0 <= v < i + 1 implies #[trigger] appears(order@, v) by {
                if v == i {
                    assert(order@[k as int] == i);
                } else {
                    assert(appears(prev, v));
                    let p0 = choose|p: int| 0 <= p < prev.len() && (#[trigger] prev[p]) == v;
                    if p0 < k {
                        assert(order@[p0] == v);
                    } else {
                        assert(order@[p0 + 1] == v);
                    }
                }
            }
        }
        i = i + 1;
    }
    order
}

/// The flat row-major index of the cell at (`col`, `row`).
pub open spec fn cell_index(width: u16, col: int, row: int) -> int {
    row * width + col
}

/// The glyph at (`col`, `row`) of a row-major buffer.
pub open spec fn cell_at(s: Seq<char>, width: u16, col: int, row: int) -> char {
    s[cell_index(width, col, row)]
}

/// A cell's flat index is below `width * height`.
proof fn lemma_cell_index_bound(width: u16, height: u16, col: int, row: int)
    requires
        0 <= col < width,
        0 <= row < height,
    ensures
        0 <= cell_index(width, col, row) < width as int * height as int,
{
    assert(0 <= row * width + col < width as int * height as int) by (nonlinear_arith)
        requires 0 <= col < width && 0 <= row < height;
}

/// Distinct cells have distinct flat indices.
proof fn lemma_cell_index_injective(width: u16, c1: int, r1: int, c2: int, r2: int)
    requires
        0 <= c1 < width,
        0 <= c2 < width,
        0 <= r1,
        0 <= r2,
        cell_index(width, c1, r1) == cell_index(width, c2, r2),
    ensures
        c1 == c2 && r1 == r2,
{
    assert(c1 == c2 && r1 == r2) by (nonlinear_arith)
        requires
            0 <= c1 < width && 0 <= c2 < width && 0 <= r1 && 0 <= r2
                && r1 * width + c1 == r2 * width + c2;
}

/// Write `glyph` into every still-blank cell of `cr`, leaving every other
/// cell untouched.
fn paint_rect(buf: &mut Vec<char>, width: u16, height: u16, cr: CellRange, glyph: char)
    requires
        old(buf)@.len() == width as int * height as int,
        cr.x0 <= cr.x1 <= width,
        cr.y0 <= cr.y1 <= height,
    ensures
        final(buf)@.len() == old(buf)@.len(),
        forall|col: int, row: int|
            0 <= col < width && 0 <= row < height ==> #[trigger] cell_at(final(buf)@, width, col, row)
                == (if cr.x0 <= col < cr.x1 && cr.y0 <= row < cr.y1 && cell_at(
                    old(buf)@,
                    width,
                    col,
                    row,
                ) == BLANK {
                    glyph
                } else {
                    cell_at(old(buf)@, width, col, row)
                }),
{
    let mut row: u16 = cr.y0;
    while row < cr.y1
        invariant
            cr.y0 <= row <= cr.y1,
            cr.x0 <= cr.x1 <= width,
            cr.y0 <= cr.y1 <= height,
            buf@.len() == old(buf)@.len(),
            buf@.len() == width as int * height as int,
            forall|c: int, r: int|
                0 <= c < width && 0 <= r < height ==> #[trigger] cell_at(buf@, width, c, r) == (
                if cr.x0 <= c < cr.x1 && cr.y0 <= r < row && cell_at(old(buf)@, width, c, r)
                    == BLANK {
                    glyph
                } else {
                    cell_at(old(buf)@, width, c, r)
                }),
        decreases cr.y1 - row,
    {
        let mut col: u16 = cr.x0;
        while col < cr.x1
            invariant
                cr.y0 <= row < cr.y1,
                cr.x0 <= col <= cr.x1,
                cr.x0 <= cr.x1 <= width,
                cr.y0 <= cr.y1 <= height,
                buf@.len() == old(buf)@.len(),
                buf@.len() == width as int * height as int,
                forall|c: int, r: int|
                    0 <= c < width && 0 <= r < height ==> #[trigger] cell_at(buf@, width, c, r)
                        == (if cr.x0 <= c < cr.x1 && cr.y0 <= r < height && (r < row || (r == row
                            && c < col)) && cell_at(old(buf)@, width, c, r) == BLANK {
                            glyph
                        } else {
                            cell_at(old(buf)@, width, c, r)
                        }),
            decreases cr.x1 - col,
        {
            proof {
                lemma_cell_index_bound(width, height, col as int, row as int);
                assert((row as int) * (width as int) + (col as int) < 0x1_0000_0000)
                    by (nonlinear_arith)
                    requires
                        0 <= col < width,
                        width <= 0xffff,
                        0 <= row,
                        row <= 0xffff,
                ;
            }
            let idx: usize = col as usize + row as usize * width as usize;
            let ghost before = buf@;
            if buf[idx] == BLANK {
                buf[idx] = glyph;
            }
            proof {
                assert forall|c: int, r: int| 0 <= c < width && 0 <= r < height implies #[trigger] cell_at(
                    buf@,
                    width,
                    c,
                    r,
                ) == (if cr.x0 <= c < cr.x1 && cr.y0 <= r < height && (r < row || (r == row && c
                    < col + 1)) && cell_at(old(buf)@, width, c, r) == BLANK {
                    glyph
                } else {
                    cell_at(old(buf)@, width, c, r)
                }) by {
                    lemma_cell_index_bound(width, height, c, r);
                    let entry_value = cell_at(before, width, c, r);
                    assert(idx == cell_index(width, col as int, row as int));
                    if cell_index(width, c, r) == cell_index(width, col as int, row as int) {
                        lemma_cell_index_injective(width, c, r, col as int, row as int);
                    }
                }
            }
            col = col + 1;
        }
        row = row + 1;
    }
}

/// Whether rectangle `i` would visibly paint the cell: its projection
/// reaches it and its glyph is not the blank one (a blank-glyph rectangle
/// leaves blank cells blank, so it never occludes anything).
pub open spec fn is_painter(
    rects: Seq<TextureRect>,
    cam: TerminalCamera2d,
    width: u16,
    height: u16,
    col: int,
    row: int,
    i: int,
) -> bool {
    &&& 0 <= i < rects.len()
    &&& covers(cam, rects[i], width, height, col, row)
    &&& rects[i].texture != BLANK
}

/// Whether rectangle `i` is the one the cell shows: it paints the cell and
/// outranks every other rectangle that would paint it (strictly greater
/// depth, or equal depth and earlier in the input).
pub open spec fn wins_at(
    rects: Seq<TextureRect>,
    cam: TerminalCamera2d,
    width: u16,
    height: u16,
    col: int,
    row: int,
    i: int,
) -> bool {
    &&& is_painter(rects, cam, width, height, col, row, i)
    &&& forall|j: int|
        #[trigger] is_painter(rects, cam, width, height, col, row, j) && j != i ==> beats(
            rects,
            i,
            j,
        )
}

/// What the composited grid shows at the cell: the glyph of the winning
/// rectangle, or blank if none paints it.
pub open spec fn cell_glyph(
    rects: Seq<TextureRect>,
    cam: TerminalCamera2d,
    width: u16,
    height: u16,
    col: int,
    row: int,
) -> char {
    if exists|i: int| #[trigger] wins_at(rects, cam, width, height, col, row, i) {
        rects[choose|i: int| #[trigger] wins_at(rects, cam, width, height, col, row, i)].texture
    } else {
        BLANK
    }
}

/// At most one rectangle wins a cell.
proof fn lemma_winner_unique(
    rects: Seq<TextureRect>,
    cam: TerminalCamera2d,
    width: u16,
    height: u16,
    col: int,
    row: int,
    i1: int,
    i2: int,
)
    requires
        wins_at(rects, cam, width, height, col, row, i1),
        wins_at(rects, cam, width, height, col, row, i2),
    ensures
        i1 == i2,
{
    if i1 != i2 {
        assert(beats(rects, i1, i2));
        assert(beats(rects, i2, i1));
    }
}

/// Whether index value `v` appears among the first `k` entries of `order`.
pub open spec fn in_prefix(order: Seq<usize>, k: int, v: int) -> bool {
    exists|p: int| 0 <= p < k && p < order.len() && (#[trigger] order[p]) == v
}

/// Whether rectangle `i` outranks every other painter of the cell among
/// the first `k` rectangles of the painting order.
pub open spec fn wins_prefix(
    rects: Seq<TextureRect>,
    cam: TerminalCamera2d,
    width: u16,
    height: u16,
    col: int,
    row: int,
    order: Seq<usize>,
    k: int,
    i: int,
) -> bool {
    &&& in_prefix(order, k, i)
    &&& is_painter(rects, cam, width, height, col, row, i)
    &&& forall|j: int|
        in_prefix(order, k, j) && #[trigger] is_painter(rects, cam, width, height, col, row, j)
            && j != i ==> beats(rects, i, j)
}

/// The glyph a cell holds after the first `k` rectangles of the painting
/// order have been painted first-wins onto a blank grid.
pub open spec fn painted(
    rects: Seq<TextureRect>,
    cam: TerminalCamera2d,
    width: u16,
    height: u16,
    col: int,
    row: int,
    order: Seq<usize>,
    k: int,
) -> char
    decreases k,
{
    if k <= 0 {
        BLANK
    } else {
        let prev = painted(rects, cam, width, height, col, row, order, k - 1);
        if prev != BLANK {
            prev
        } else {
            let t = order[k - 1] as int;
            if 0 <= t < rects.len() && covers(cam, rects[t], width, height, col, row) {
                rects[t].texture
            } else {
                BLANK
            }
        }
    }
}

/// First-wins painting in a depth-sorted order realizes occlusion: after
/// `k` rectangles, the cell holds the glyph of the highest-priority
/// painter among them, or stays blank if none of them paints it.
proof fn lemma_painted_winner(
    rects: Seq<TextureRect>,
    cam: TerminalCamera2d,
    width: u16,
    height: u16,
    col: int,
    row: int,
    order: Seq<usize>,
    k: int,
)
    requires
        sorted_order(rects, order),
        0 <= k <= order.len(),
    ensures
        forall|i: int|
            #[trigger] wins_prefix(rects, cam, width, height, col, row, order, k, i) ==> painted(
                rects,
                cam,
                width,
                height,
                col,
                row,
                order,
                k,
            ) == rects[i].texture && rects[i].texture != BLANK,
        (exists|i: int|
            in_prefix(order, k, i) && #[trigger] is_painter(
                rects,
                cam,
                width,
                height,
                col,
                row,
                i,
            )) <==> (exists|i: int|
            #[trigger] wins_prefix(rects, cam, width, height, col, row, order, k, i)),
        !(exists|i: int|
            #[trigger] wins_prefix(rects, cam, width, height, col, row, order, k, i)) ==> painted(
            rects,
            cam,
            width,
            height,
            col,
            row,
            order,
            k,
        ) == BLANK,
    decreases k,
{
    if k <= 0 {
        assert forall|i: int| !wins_prefix(rects, cam, width, height, col, row, order, k, i) by {
            if in_prefix(order, k, i) {
                let p = choose|p: int|
                    0 <= p < k && p < order.len() && (#[trigger] order[p]) == i;
            }
        }
    } else {
        lemma_painted_winner(rects, cam, width, height, col, row, order, k - 1);
        let t = order[k - 1] as int;
        let prev = painted(rects, cam, width, height, col, row, order, k - 1);
        let cur = painted(rects, cam, width, height, col, row, order, k);
        // A value in the prefix of length k is in the shorter prefix or is
        // the newly appended `t`.
        assert forall|j: int| in_prefix(order, k, j) implies in_prefix(order, k - 1, j) || j == t by {
            let p = choose|p: int| 0 <= p < k && p < order.len() && (#[trigger] order[p]) == j;
            if p < k - 1 {
                assert(in_prefix(order, k - 1, j));
            }
        }
        assert(in_prefix(order, k, t)) by {
            assert(order[k - 1] == t);
        }
        if exists|i: int|
            #[trigger] wins_prefix(rects, cam, width, height, col, row, order, k - 1, i) {
            let w = choose|i: int|
                #[trigger] wins_prefix(rects, cam, width, height, col, row, order, k - 1, i);
            assert(prev == rects[w].texture && rects[w].texture != BLANK);
            assert(cur == prev);
            // The winner of the shorter prefix also beats `t`, which comes
            // later in the sorted order.
            assert(wins_prefix(rects, cam, width, height, col, row, order, k, w)) by {
                assert(in_prefix(order, k, w)) by {
                    let p = choose|p: int|
                        0 <= p < k - 1 && p < order.len() && (#[trigger] order[p]) == w;
                    assert(order[p] == w);
                }
                assert forall|j: int|
                    in_prefix(order, k, j) && #[trigger] is_painter(
                        rects,
                        cam,
                        width,
                        height,
                        col,
                        row,
                        j,
                    ) && j != w implies beats(rects, w, j) by {
                    if in_prefix(order, k - 1, j) {
                    } else {
                        assert(j == t);
                        let p = choose|p: int|
                            0 <= p < k - 1 && p < order.len() && (#[trigger] order[p]) == w;
                        assert(beats(rects, order[p] as int, order[k - 1] as int));
                    }
                }
            }
            assert forall|i: int|
                #[trigger] wins_prefix(rects, cam, width, height, col, row, order, k, i) implies cur
                == rects[i].texture && rects[i].texture != BLANK by {
                lemma_prefix_winner_unique(rects, cam, width, height, col, row, order, k, i, w);
            }
        } else {
            // No painter among the first k-1 rectangles, so the cell is
            // still blank when `t` is considered.
            assert(prev == BLANK);
            if is_painter(rects, cam, width, height, col, row, t) {
                assert(cur == rects[t].texture);
                assert(wins_prefix(rects, cam, width, height, col, row, order, k, t)) by {
                    assert forall|j: int|
                        in_prefix(order, k, j) && #[trigger] is_painter(
                            rects,
                            cam,
                            width,
                            height,
                            col,
                            row,
                            j,
                        ) && j != t implies beats(rects, t, j) by {
                        assert(in_prefix(order, k - 1, j));
                    }
                }
                assert forall|i: int|
                    #[trigger] wins_prefix(rects, cam, width, height, col, row, order, k, i) implies cur
                    == rects[i].texture && rects[i].texture != BLANK by {
                    lemma_prefix_winner_unique(rects, cam, width, height, col, row, order, k, i, t);
                }
            } else {
                assert(cur == BLANK);
                assert forall|i: int|
                    !wins_prefix(rects, cam, width, height, col, row, order, k, i) by {
                    if wins_prefix(rects, cam, width, height, col, row, order, k, i) {
                        assert(is_painter(rects, cam, width, height, col, row, i));
                        assert(in_prefix(order, k - 1, i) || i == t);
                    }
                }
                assert forall|i: int|
                    !(in_prefix(order, k, i) && #[trigger] is_painter(
                        rects,
                        cam,
                        width,
                        height,
                        col,
                        row,
                        i,
                    )) by {
                    if in_prefix(order, k, i) && is_painter(rects, cam, width, height, col, row, i) {
                        assert(in_prefix(order, k - 1, i) || i == t);
                    }
                }
            }
        }
    }
}

/// Two winners of the same prefix are the same rectangle.
proof fn lemma_prefix_winner_unique(
    rects: Seq<TextureRect>,
    cam: TerminalCamera2d,
    width: u16,
    height: u16,
    col: int,
    row: int,
    order: Seq<usize>,
    k: int,
    i1: int,
    i2: int,
)
    requires
        wins_prefix(rects, cam, width, height, col, row, order, k, i1),
        wins_prefix(rects, cam, width, height, col, row, order, k, i2),
    ensures
        i1 == i2,
{
    if i1 != i2 {
        assert(beats(rects, i1, i2));
        assert(beats(rects, i2, i1));
    }
}

/// First-wins painting over a complete depth-sorted order shows, at every
/// cell, exactly the occlusion winner's glyph.
proof fn lemma_sorted_paint_is_occlusion(
    rects: Seq<TextureRect>,
    cam: TerminalCamera2d,
    width: u16,
    height: u16,
    col: int,
    row: int,
    order: Seq<usize>,
)
    requires
        sorted_order(rects, order),
    ensures
        painted(rects, cam, width, height, col, row, order, order.len() as int) == cell_glyph(
            rects,
            cam,
            width,
            height,
            col,
            row,
        ),
{
    let n = order.len() as int;
    lemma_painted_winner(rects, cam, width, height, col, row, order, n);
    assert forall|i: int|
        #[trigger] wins_prefix(rects, cam, width, height, col, row, order, n, i) implies wins_at(
        rects,
        cam,
        width,
        height,
        col,
        row,
        i,
    ) by {
        assert forall|j: int|
            #[trigger] is_painter(rects, cam, width, height, col, row, j) && j != i implies beats(
            rects,
            i,
            j,
        ) by {
            assert(appears(order, j));
            let p = choose|p: int| 0 <= p < order.len() && (#[trigger] order[p]) == j;
            assert(in_prefix(order, n, j));
        }
    }
    assert forall|i: int|
        #[trigger] wins_at(rects, cam, width, height, col, row, i) implies wins_prefix(
        rects,
        cam,
        width,
        height,
        col,
        row,
        order,
        n,
        i,
    ) by {
        assert(appears(order, i));
        let p = choose|p: int| 0 <= p < order.len() && (#[trigger] order[p]) == i;
        assert(in_prefix(order, n, i));
    }
    if exists|i: int| #[trigger] wins_at(rects, cam, width, height, col, row, i) {
        let w = choose|i: int| #[trigger] wins_at(rects, cam, width, height, col, row, i);
        assert(wins_prefix(rects, cam, width, height, col, row, order, n, w));
    } else {
        if exists|i: int| #[trigger] wins_prefix(rects, cam, width, height, col, row, order, n, i) {
            let w = choose|i: int|
                #[trigger] wins_prefix(rects, cam, width, height, col, row, order, n, i);
            assert(wins_at(rects, cam, width, height, col, row, w));
        }
    }
}

/// Composite the rectangles into the display buffer through the camera.
///
/// With `autoresize` set the camera viewport first takes the grid's size,
/// in whole cells. The buffer is cleared to the blank glyph, and every
/// rectangle is projected and painted in descending depth order (ties in
/// input order), the first rectangle to reach a cell keeping it.
/// Afterwards every cell shows the glyph of its occlusion winner.
pub fn render(
    rects: &Vec<TextureRect>,
    camera: &mut TerminalCamera2d,
    display_buf: &mut VirtualDisplayBuffer,
)
    requires
        old(camera).wf(),
        forall|i: int| 0 <= i < rects@.len() ==> (#[trigger] rects@[i]).wf(),
    ensures
        final(camera).wf(),
        final(camera).loc == old(camera).loc,
        final(camera).settings == old(camera).settings,
        old(camera).settings.autoresize ==> final(camera).dim == (Vec2i {
            x: (old(display_buf).width as int * UNITS_PER_CELL as int) as i64,
            y: (old(display_buf).height as int * UNITS_PER_CELL as int) as i64,
        }),
        !old(camera).settings.autoresize ==> final(camera).dim == old(camera).dim,
        final(display_buf).width == old(display_buf).width,
        final(display_buf).height == old(display_buf).height,
        final(display_buf).wf(),
        forall|col: int, row: int|
            0 <= col < old(display_buf).width && 0 <= row < old(display_buf).height
                ==> #[trigger] cell_at(
                final(display_buf).buf@,
                old(display_buf).width,
                col,
                row,
            ) == cell_glyph(
                rects@,
                *final(camera),
                old(display_buf).width,
                old(display_buf).height,
                col,
                row,
            ),
{
    let buf_width = display_buf.width;
    let buf_height = display_buf.height;
    if camera.settings_ref().autoresize() {
        camera.set_dim(
            Vec2i::new(
                buf_width as i64 * UNITS_PER_CELL,
                buf_height as i64 * UNITS_PER_CELL,
            ),
        );
    }
    display_buf.resize(buf_width, buf_height);
    let order = sort_z_order(rects);
    let n = order.len();
    proof {
        assert forall|col: int, row: int|
            0 <= col < buf_width && 0 <= row < buf_height implies #[trigger] cell_at(
            display_buf.buf@,
            buf_width,
            col,
            row,
        ) == painted(rects@, *camera, buf_width, buf_height, col, row, order@, 0) by {
            lemma_cell_index_bound(buf_width, buf_height, col, row);
        }
    }
    let mut k: usize = 0;
    while k < n
        invariant
            k <= n,
            n == order@.len(),
            sorted_order(rects@, order@),
            forall|i: int| 0 <= i < rects@.len() ==> (#[trigger] rects@[i]).wf(),
            camera.wf(),
            display_buf.width == buf_width,
            display_buf.height == buf_height,
            display_buf.buf@.len() == buf_width as int * buf_height as int,
            forall|col: int, row: int|
                0 <= col < buf_width && 0 <= row < buf_height ==> #[trigger] cell_at(
                    display_buf.buf@,
                    buf_width,
                    col,
                    row,
                ) == painted(rects@, *camera, buf_width, buf_height, col, row, order@, k as int),
        decreases n - k,
    {
        let t = order[k];
        proof {
            assert(order@[k as int] < rects@.len());
        }
        let rect = rects[t];
        let ghost before = display_buf.buf@;
        let projected = project(camera, &rect, buf_width, buf_height);
        match projected {
            Some(cr) => {
                paint_rect(&mut display_buf.buf, buf_width, buf_height, cr, rect.texture);
            },
            None => {},
        }
        proof {
            assert forall|col: int, row: int|
                0 <= col < buf_width && 0 <= row < buf_height implies #[trigger] cell_at(
                display_buf.buf@,
                buf_width,
                col,
                row,
            ) == painted(
                rects@,
                *camera,
                buf_width,
                buf_height,
                col,
                row,
                order@,
                k + 1,
            ) by {
                let prev = painted(rects@, *camera, buf_width, buf_height, col, row, order@, k as int);
                assert(cell_at(before, buf_width, col, row) == prev);
                match projected {
                    Some(cr) => {
                        assert(covers(*camera, rects@[t as int], buf_width, buf_height, col, row)
                            <==> (cr.x0 <= col < cr.x1 && cr.y0 <= row < cr.y1));
                    },
                    None => {
                        assert(!covers(*camera, rects@[t as int], buf_width, buf_height, col, row));
                    },
                }
            }
        }
        k = k + 1;
    }
    proof {
        assert forall|col: int, row: int|
            0 <= col < buf_width && 0 <= row < buf_height implies #[trigger] cell_at(
            display_buf.buf@,
            buf_width,
            col,
            row,
        ) == cell_glyph(rects@, *camera, buf_width, buf_height, col, row) by {
            lemma_sorted_paint_is_occlusion(
                rects@,
                *camera,
                buf_width,
                buf_height,
                col,
                row,
                order@,
            );
        }
    }
}

/// Occlusion: if rectangle `i` paints the cell and outranks every other
/// rectangle that paints it — strictly greater depth, or equal depth and
/// earlier in the input — then the composited cell shows `i`'s glyph.
/// (A rectangle whose glyph is the blank one paints nothing, so it
/// neither wins nor occludes.)
pub proof fn lemma_occlusion(
    rects: Seq<TextureRect>,
    cam: TerminalCamera2d,
    width: u16,
    height: u16,
    col: int,
    row: int,
    i: int,
)
    requires
        is_painter(rects, cam, width, height, col, row, i),
        forall|j: int|
            #[trigger] is_painter(rects, cam, width, height, col, row, j) && j != i
                ==> rects[j].loc_z < rects[i].loc_z || (rects[j].loc_z == rects[i].loc_z && i < j),
    ensures
        cell_glyph(rects, cam, width, height, col, row) == rects[i].texture,
{
    assert(wins_at(rects, cam, width, height, col, row, i));
    let w = choose|n: int| #[trigger] wins_at(rects, cam, width, height, col, row, n);
    lemma_winner_unique(rects, cam, width, height, col, row, i, w);
}

/// With no overlap at a cell, composition degenerates to independent
/// per-rectangle rasterization: the cell shows the glyph of the one
/// rectangle that projects onto it, whatever its depth and position in
/// the input order.
pub proof fn lemma_disjoint_cell_independent(
    rects: Seq<TextureRect>,
    cam: TerminalCamera2d,
    width: u16,
    height: u16,
    col: int,
    row: int,
    i: int,
)
    requires
        0 <= i < rects.len(),
        covers(cam, rects[i], width, height, col, row),
        forall|j: int|
            0 <= j < rects.len() && j != i ==> !covers(
                cam,
                #[trigger] rects[j],
                width,
                height,
                col,
                row,
            ),
    ensures
        cell_glyph(rects, cam, width, height, col, row) == rects[i].texture,
{
    if rects[i].texture == BLANK {
        assert forall|n: int| !wins_at(rects, cam, width, height, col, row, n) by {
            if is_painter(rects, cam, width, height, col, row, n) {
                assert(covers(cam, rects[n], width, height, col, row));
            }
        }
    } else {
        lemma_occlusion(rects, cam, width, height, col, row, i);
    }
}

/// A cell no rectangle projects onto stays blank.
pub proof fn lemma_uncovered_cell_blank(
    rects: Seq<TextureRect>,
    cam: TerminalCamera2d,
    width: u16,
    height: u16,
    col: int,
    row: int,
)
    requires
        forall|j: int|
            0 <= j < rects.len() ==> !covers(cam, #[trigger] rects[j], width, height, col, row),
    ensures
        cell_glyph(rects, cam, width, height, col, row) == BLANK,
{
    assert forall|n: int| !wins_at(rects, cam, width, height, col, row, n) by {
        if is_painter(rects, cam, width, height, col, row, n) {
            assert(covers(cam, rects[n], width, height, col, row));
        }
    }
}

} // verus!
