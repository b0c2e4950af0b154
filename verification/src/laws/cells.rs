//! What is measured of an image: gradients, and the luma and gradient sums of cells.
use vstd::prelude::*;
use crate::algorithm::{
    cell_gx, cell_gy, lemma_cell_inside, lemma_index, measure_frame, region, CellSample,
};
use crate::frame::{gradients, magnitude, sobel_x, sobel_y, Gradients, Planes};
use crate::structure_tensor::{
    area_sum, lemma_product_bound, product, row_sum, CellStructureTensors, StructureTensor,
};

verus! {

/// `f(0) + f(1) + .. + f(n - 1)`.
pub open spec fn total(n: int, f: spec_fn(int) -> int) -> int
    decreases n,
{
    if n <= 0 {
        0
    } else {
        total(n - 1, f) + f(n - 1)
    }
}

/// The gradients at a pixel are the differences between its neighbours on the right and on
/// the left, and between those below and above, the middle ones counted twice. At a
/// border the pixel itself stands for the neighbour that is missing.
pub proof fn law_gradients(width: u32, height: u32, luma: Vec<u8>, r: Gradients, x: int, y: int)
    requires
        luma@.len() == width * height,
        gradients.ensures((width, height, &luma), r),
        0 <= x < width,
        0 <= y < height,
    ensures
        ({
            let p = luma@;
            let w = width as int;
            let left = if x > 0 { x - 1 } else { x };
            let right = if x < w - 1 { x + 1 } else { x };
            let up = if y > 0 { y - 1 } else { y };
            let down = if y < height - 1 { y + 1 } else { y };
            &&& r.gx@.len() == width * height
            &&& r.gy@.len() == width * height
            &&& r.gx@[y * w + x] == (p[up * w + right] + 2 * p[y * w + right] + p[down * w + right])
                - (p[up * w + left] + 2 * p[y * w + left] + p[down * w + left])
            &&& r.gy@[y * w + x] == (p[down * w + left] + 2 * p[down * w + x] + p[down * w + right])
                - (p[up * w + left] + 2 * p[up * w + x] + p[up * w + right])
        }),
{
    let (w, h) = (width as int, height as int);
    assert(r.gx@[y * w + x] == sobel_x(luma@, w, h, x, y));
    assert(r.gy@[y * w + x] == sobel_y(luma@, w, h, x, y));
}

/// The length of a gradient is rounded to the nearest integer, up to 255. It is 0 for no
/// gradient alone.
pub proof fn law_magnitude(gx: i16, gy: i16, r: u8)
    requires
        magnitude.ensures((gx, gy), r),
    ensures
        r > 0 ==> r * r - r < gx * gx + gy * gy,
        r < 255 ==> gx * gx + gy * gy <= r * r + r,
        r == 0 <==> gx == 0 && gy == 0,
{
    let (m, s) = (r as int, gx * gx + gy * gy);
    assert((2 * m - 1) * (2 * m - 1) == 4 * (m * m - m) + 1) by (nonlinear_arith);
    assert((2 * m + 1) * (2 * m + 1) == 4 * (m * m + m) + 1) by (nonlinear_arith);
    assert(gx * gx >= 0 && gy * gy >= 0 && (gx * gx == 0 <==> gx == 0) && (gy * gy == 0 <==> gy
        == 0)) by (nonlinear_arith);
    assert(m == 0 ==> m * m == 0) by (nonlinear_arith);
}

/// The luma list of a cell holds each pixel of its quadrants exactly once: those of the top
/// left quadrant row by row, then those of the top right, the bottom left and the bottom
/// right one. Cells are numbered row by row. `right` and `bottom` are 0 or 1 and say which
/// quadrant is meant, `(dx, dy)` a pixel of it.
pub proof fn law_luma_list_holds_each_pixel(
    planes: Planes,
    cell_w: u32,
    cell_h: u32,
    r: Vec<CellSample>,
    col: int,
    row: int,
    right: int,
    bottom: int,
    dx: int,
    dy: int,
)
    requires
        planes.wf(),
        cell_w > 0,
        cell_h > 0,
        measure_frame.ensures((&planes, cell_w, cell_h), r),
        0 <= col < planes.width / cell_w,
        0 <= row < planes.height / cell_h,
        0 <= right <= 1,
        0 <= bottom <= 1,
        0 <= dx < cell_w / 2,
        0 <= dy < cell_h / 2,
    ensures
        ({
            let k = row * (planes.width / cell_w) + col;
            let half_w = cell_w / 2;
            let half_h = cell_h / 2;
            let list = r@[k].luma@;
            let at = (2 * bottom + right) * (half_w * half_h) + (dy * half_w + dx);
            let x = col * cell_w + right * half_w + dx;
            let y = row * cell_h + bottom * half_h + dy;
            &&& r@.len() == (planes.width / cell_w) * (planes.height / cell_h)
            &&& 0 <= k < r@.len()
            &&& list.len() == 4 * (half_w * half_h)
            &&& 0 <= at < list.len()
            &&& list[at] == planes.luma@[y * planes.width + x]
        }),
{
    let (w, h) = (planes.width as int, planes.height as int);
    let (hw, hh) = ((cell_w / 2) as int, (cell_h / 2) as int);
    let k = row * (planes.width / cell_w) + col;
    lemma_cell(planes.width, planes.height, cell_w, cell_h, col, row);
    let (x0, y0) = (col * cell_w, row * cell_h);
    let p = planes.luma@;
    lemma_region_len(p, w, h, x0, y0, x0 + hw, y0 + hh);
    lemma_region_len(p, w, h, x0 + hw, y0, x0 + hw * 2, y0 + hh);
    lemma_region_len(p, w, h, x0, y0 + hh, x0 + hw, y0 + hh * 2);
    lemma_region_len(p, w, h, x0 + hw, y0 + hh, x0 + hw * 2, y0 + hh * 2);
    assert((x0 + hw - x0) * (y0 + hh - y0) == hw * hh) by (nonlinear_arith);
    assert((x0 + hw * 2 - (x0 + hw)) * (y0 + hh - y0) == hw * hh) by (nonlinear_arith);
    assert((x0 + hw - x0) * (y0 + hh * 2 - (y0 + hh)) == hw * hh) by (nonlinear_arith);
    assert((x0 + hw * 2 - (x0 + hw)) * (y0 + hh * 2 - (y0 + hh)) == hw * hh) by (nonlinear_arith);
    let (x1, y1) = (x0 + right * hw, y0 + bottom * hh);
    assert(right * hw == if right == 0 { 0 } else { hw }) by (nonlinear_arith)
        requires
            0 <= right <= 1,
    ;
    assert(bottom * hh == if bottom == 0 { 0 } else { hh }) by (nonlinear_arith)
        requires
            0 <= bottom <= 1,
    ;
    lemma_region_at(p, w, h, x1, y1, x1 + hw, y1 + hh, dx, dy);
    assert(0 <= dy * hw && dy * hw + hw <= hw * hh) by (nonlinear_arith)
        requires
            0 <= dy < hh,
            0 <= hw,
    ;
    let q = 2 * bottom + right;
    let n = hw * hh;
    assert(q * n == if q == 0 { 0 } else if q == 1 { n } else if q == 2 { n + n } else { n + n + n })
        by (nonlinear_arith)
        requires
            0 <= q <= 3,
    ;
    assert(r@[k].of(planes, cell_w, cell_h, x0, y0));
}

/// A cell by its column and row is the one with the number that `measure_frame` gives it.
proof fn lemma_cell(width: u32, height: u32, cell_w: u32, cell_h: u32, col: int, row: int)
    requires
        cell_w > 0,
        cell_h > 0,
        0 <= col < width / cell_w,
        0 <= row < height / cell_h,
    ensures
        ({
            let cols = (width / cell_w) as int;
            let k = row * cols + col;
            &&& 0 <= k < cols * (height / cell_h)
            &&& k % cols == col
            &&& k / cols == row
            &&& 0 <= col * cell_w
            &&& col * cell_w + cell_w <= width
            &&& 0 <= row * cell_h
            &&& row * cell_h + cell_h <= height
        }),
{
    let cols = (width / cell_w) as int;
    let rows = (height / cell_h) as int;
    let k = row * cols + col;
    lemma_index(cols, rows, col, row);
    vstd::arithmetic::div_mod::lemma_fundamental_div_mod_converse(k, cols, row, col);
    lemma_cell_inside(width, height, cell_w, cell_h, k);
}

proof fn lemma_region_len(p: Seq<u8>, w: int, h: int, x1: int, y1: int, x2: int, y2: int)
    requires
        p.len() == w * h,
        0 <= x1 <= x2 <= w,
        0 <= y1 <= y2 <= h,
    ensures
        region(p, w, x1, y1, x2, y2).len() == (x2 - x1) * (y2 - y1),
    decreases y2 - y1,
{
    if y1 < y2 {
        lemma_region_len(p, w, h, x1, y1, x2, y2 - 1);
        lemma_index(w, h, x1, y2 - 1);
        assert((x2 - x1) * (y2 - y1) == (x2 - x1) * (y2 - 1 - y1) + (x2 - x1)) by (nonlinear_arith);
    } else {
        assert((x2 - x1) * (y2 - y1) == 0) by (nonlinear_arith)
            requires
                y1 == y2,
        ;
    }
}

proof fn lemma_region_at(
    p: Seq<u8>,
    w: int,
    h: int,
    x1: int,
    y1: int,
    x2: int,
    y2: int,
    dx: int,
    dy: int,
)
    requires
        p.len() == w * h,
        0 <= x1 <= x2 <= w,
        0 <= y1 <= y2 <= h,
        0 <= dx < x2 - x1,
        0 <= dy < y2 - y1,
    ensures
        0 <= dy * (x2 - x1) + dx < region(p, w, x1, y1, x2, y2).len(),
        region(p, w, x1, y1, x2, y2)[dy * (x2 - x1) + dx] == p[(y1 + dy) * w + (x1 + dx)],
    decreases y2 - y1,
{
    let n = x2 - x1;
    lemma_region_len(p, w, h, x1, y1, x2, y2 - 1);
    lemma_region_len(p, w, h, x1, y1, x2, y2);
    lemma_index(w, h, x1, y2 - 1);
    lemma_index(n, y2 - y1, dx, dy);
    if dy < y2 - 1 - y1 {
        lemma_region_at(p, w, h, x1, y1, x2, y2 - 1, dx, dy);
    } else {
        assert(dy * n == n * (y2 - 1 - y1)) by (nonlinear_arith)
            requires
                dy == y2 - 1 - y1,
        ;
    }
}

/// The sums of one quadrant of a cell, whose top left pixel is `(x, y)` and whose sides are
/// `w` and `h`, are the totals of the products of its gradients over its pixels.
pub open spec fn totals(
    t: StructureTensor,
    g: Gradients,
    width: int,
    x: int,
    y: int,
    w: int,
    h: int,
) -> bool {
    let at = |i: int| (y + i / w) * width + (x + i % w);
    &&& t.pixels == w * h
    &&& t.gx_squared == total(w * h, |i: int| g.gx@[at(i)] * g.gx@[at(i)])
    &&& t.gxgy == total(w * h, |i: int| g.gx@[at(i)] * g.gy@[at(i)])
    &&& t.gy_squared == total(w * h, |i: int| g.gy@[at(i)] * g.gy@[at(i)])
}

/// What is summed up of a cell: of each quadrant, the squares and the product of the
/// gradients of all its pixels.
pub proof fn law_gradient_sums(
    planes: Planes,
    cell_w: u32,
    cell_h: u32,
    r: Vec<CellSample>,
    g: Gradients,
    col: int,
    row: int,
)
    requires
        planes.wf(),
        cell_w > 0,
        cell_h > 0,
        (cell_w / 2) * (cell_h / 2) <= u32::MAX,
        measure_frame.ensures((&planes, cell_w, cell_h), r),
        gradients.ensures((planes.width, planes.height, &planes.luma), g),
        0 <= col < planes.width / cell_w,
        0 <= row < planes.height / cell_h,
    ensures
        ({
            let t = r@[row * (planes.width / cell_w) + col].tensors;
            let width = planes.width as int;
            let (w, h) = ((cell_w / 2) as int, (cell_h / 2) as int);
            let (x, y) = (col * cell_w, row * cell_h);
            &&& t.cell_w == cell_w
            &&& t.cell_h == cell_h
            &&& totals(t.tl, g, width, x, y, w, h)
            &&& totals(t.tr, g, width, x + w, y, w, h)
            &&& totals(t.bl, g, width, x, y + h, w, h)
            &&& totals(t.br, g, width, x + w, y + h, w, h)
        }),
{
    let k = row * (planes.width / cell_w) + col;
    let (w, h) = ((cell_w / 2) as int, (cell_h / 2) as int);
    let (x, y) = (col * cell_w, row * cell_h);
    lemma_cell(planes.width, planes.height, cell_w, cell_h, col, row);
    assert(r@[k].of(planes, cell_w, cell_h, x, y));
    let t = r@[k].tensors;
    assert(0 <= w * h) by (nonlinear_arith)
        requires
            0 <= w,
            0 <= h,
    ;
    lemma_totals(planes, g, t.tl, x, y, 0, 0, w, h);
    lemma_totals(planes, g, t.tr, x, y, w, 0, w, h);
    lemma_totals(planes, g, t.bl, x, y, 0, h, w, h);
    lemma_totals(planes, g, t.br, x, y, w, h, w, h);
}

proof fn lemma_totals(
    planes: Planes,
    g: Gradients,
    t: StructureTensor,
    x: int,
    y: int,
    x1: int,
    y1: int,
    w: int,
    h: int,
)
    requires
        planes.wf(),
        gradients.ensures((planes.width, planes.height, &planes.luma), g),
        0 <= w,
        0 <= h,
        0 <= x + x1,
        x + x1 + w <= planes.width,
        0 <= y + y1,
        y + y1 + h <= planes.height,
        t.pixels == w * h,
        t.sums(
            cell_gx(planes.luma@, planes.width as int, planes.height as int, x, y),
            cell_gy(planes.luma@, planes.width as int, planes.height as int, x, y),
            x1,
            y1,
            x1 + w,
            y1 + h,
        ),
    ensures
        totals(t, g, planes.width as int, x + x1, y + y1, w, h),
{
    let width = planes.width as int;
    let height = planes.height as int;
    let p = planes.luma@;
    let fx = cell_gx(p, width, height, x, y);
    let fy = cell_gy(p, width, height, x, y);
    let at = |i: int| (y + y1 + i / w) * width + (x + x1 + i % w);
    let xx = |i: int| g.gx@[at(i)] * g.gx@[at(i)];
    let xy = |i: int| g.gx@[at(i)] * g.gy@[at(i)];
    let yy = |i: int| g.gy@[at(i)] * g.gy@[at(i)];
    if w > 0 {
        assert forall|dx: int, dy: int| 0 <= dx < w && 0 <= dy < h implies #[trigger] product(
            fx,
            fx,
        )(x1 + dx, y1 + dy) == xx(dy * w + dx) by {
            lemma_at(planes, g, x, y, x1, y1, w, h, dx, dy);
        }
        assert forall|dx: int, dy: int| 0 <= dx < w && 0 <= dy < h implies #[trigger] product(
            fx,
            fy,
        )(x1 + dx, y1 + dy) == xy(dy * w + dx) by {
            lemma_at(planes, g, x, y, x1, y1, w, h, dx, dy);
        }
        assert forall|dx: int, dy: int| 0 <= dx < w && 0 <= dy < h implies #[trigger] product(
            fy,
            fy,
        )(x1 + dx, y1 + dy) == yy(dy * w + dx) by {
            lemma_at(planes, g, x, y, x1, y1, w, h, dx, dy);
        }
        lemma_area_total(product(fx, fx), xx, x1, y1, w, h);
        lemma_area_total(product(fx, fy), xy, x1, y1, w, h);
        lemma_area_total(product(fy, fy), yy, x1, y1, w, h);
    } else {
        assert(w * h == 0) by (nonlinear_arith)
            requires
                w == 0,
        ;
        lemma_empty_area(product(fx, fx), x1, y1, y1 + h);
        lemma_empty_area(product(fx, fy), x1, y1, y1 + h);
        lemma_empty_area(product(fy, fy), x1, y1, y1 + h);
    }
    lemma_total_same(w * h, xx, |i: int| g.gx@[at(i)] * g.gx@[at(i)]);
    lemma_total_same(w * h, xy, |i: int| g.gx@[at(i)] * g.gy@[at(i)]);
    lemma_total_same(w * h, yy, |i: int| g.gy@[at(i)] * g.gy@[at(i)]);
    let named = |i: int| ((y + y1) + i / w) * width + ((x + x1) + i % w);
    assert(at =~= named);
}

/// A gradient that is read at a place of a rectangle is the one at its position.
proof fn lemma_at(
    planes: Planes,
    g: Gradients,
    x: int,
    y: int,
    x1: int,
    y1: int,
    w: int,
    h: int,
    dx: int,
    dy: int,
)
    requires
        planes.wf(),
        gradients.ensures((planes.width, planes.height, &planes.luma), g),
        0 <= dx < w,
        0 <= dy < h,
        0 <= x + x1,
        x + x1 + w <= planes.width,
        0 <= y + y1,
        y + y1 + h <= planes.height,
    ensures
        ({
            let (width, height) = (planes.width as int, planes.height as int);
            let i = dy * w + dx;
            let at = (y + y1 + i / w) * width + (x + x1 + i % w);
            &&& g.gx@[at] == cell_gx(planes.luma@, width, height, x, y)(x1 + dx, y1 + dy)
            &&& g.gy@[at] == cell_gy(planes.luma@, width, height, x, y)(x1 + dx, y1 + dy)
        }),
{
    let (width, height) = (planes.width as int, planes.height as int);
    vstd::arithmetic::div_mod::lemma_fundamental_div_mod_converse(dy * w + dx, w, dy, dx);
    let (u, v) = (x + (x1 + dx), y + (y1 + dy));
    assert(g.gx@[v * width + u] == sobel_x(planes.luma@, width, height, u, v));
    assert(g.gy@[v * width + u] == sobel_y(planes.luma@, width, height, u, v));
}

proof fn lemma_empty_area(f: spec_fn(int, int) -> int, x: int, y1: int, y2: int)
    ensures
        area_sum(f, x, y1, x, y2) == 0,
    decreases y2 - y1,
{
    if y1 < y2 {
        lemma_empty_area(f, x, y1, y2 - 1);
    }
}

proof fn lemma_total_same(n: int, f: spec_fn(int) -> int, g: spec_fn(int) -> int)
    requires
        forall|i: int| 0 <= i < n ==> #[trigger] f(i) == g(i),
    ensures
        total(n, f) == total(n, g),
    decreases n,
{
    if n > 0 {
        lemma_total_same(n - 1, f, g);
        assert(f(n - 1) == g(n - 1));
    }
}

/// A sum over a rectangle is the total over its positions, counted row by row.
proof fn lemma_area_total(
    f: spec_fn(int, int) -> int,
    g: spec_fn(int) -> int,
    x1: int,
    y1: int,
    w: int,
    h: int,
)
    requires
        0 < w,
        0 <= h,
        forall|dx: int, dy: int|
            0 <= dx < w && 0 <= dy < h ==> #[trigger] f(x1 + dx, y1 + dy) == g(dy * w + dx),
    ensures
        area_sum(f, x1, y1, x1 + w, y1 + h) == total(w * h, g),
    decreases h,
{
    if h > 0 {
        lemma_area_total(f, g, x1, y1, w, h - 1);
        lemma_row_total(f, g, x1, y1, w, h, w);
        assert(w * h == w * (h - 1) + w) by (nonlinear_arith);
    } else {
        assert(w * h == 0) by (nonlinear_arith)
            requires
                h == 0,
        ;
    }
}

proof fn lemma_row_total(
    f: spec_fn(int, int) -> int,
    g: spec_fn(int) -> int,
    x1: int,
    y1: int,
    w: int,
    h: int,
    n: int,
)
    requires
        0 < h,
        0 <= n <= w,
        forall|dx: int, dy: int|
            0 <= dx < w && 0 <= dy < h ==> #[trigger] f(x1 + dx, y1 + dy) == g(dy * w + dx),
    ensures
        total(w * (h - 1) + n, g) == total(w * (h - 1), g) + row_sum(
            f,
            y1 + h - 1,
            x1,
            x1 + n,
        ),
    decreases n,
{
    if n > 0 {
        lemma_row_total(f, g, x1, y1, w, h, n - 1);
        assert(f(x1 + (n - 1), y1 + (h - 1)) == g((h - 1) * w + (n - 1)));
        assert((h - 1) * w == w * (h - 1) && 0 <= w * (h - 1)) by (nonlinear_arith)
            requires
                0 < h,
                0 <= w,
        ;
    }
}

/// Accumulating the gradient of the pixel `(dx, dy)` of a cell adds its squares and its
/// product to the quadrant that the pixel lies in, and leaves all else as it is.
pub proof fn law_accumulate(
    t: &mut CellStructureTensors,
    dx: u32,
    dy: u32,
    gx: i16,
    gy: i16,
)
    requires
        CellStructureTensors::accumulate.ensures((t, dx, dy, gx, gy), ()),
        old(t).has_room(),
    ensures
        ({
            let (a, b) = (*old(t), *final(t));
            let right = dx >= a.cell_w / 2;
            let bottom = dy >= a.cell_h / 2;
            &&& b.cell_w == a.cell_w && b.cell_h == a.cell_h
            &&& right || bottom ==> b.tl == a.tl
            &&& !right || bottom ==> b.tr == a.tr
            &&& right || !bottom ==> b.bl == a.bl
            &&& !right || !bottom ==> b.br == a.br
            &&& !right && !bottom ==> added(a.tl, b.tl, gx as int, gy as int)
            &&& right && !bottom ==> added(a.tr, b.tr, gx as int, gy as int)
            &&& !right && bottom ==> added(a.bl, b.bl, gx as int, gy as int)
            &&& right && bottom ==> added(a.br, b.br, gx as int, gy as int)
        }),
{
    lemma_product_bound(gx, gx);
    lemma_product_bound(gx, gy);
    lemma_product_bound(gy, gy);
}

/// A tensor with the products of one gradient added.
pub open spec fn added(a: StructureTensor, b: StructureTensor, gx: int, gy: int) -> bool {
    &&& b.pixels == a.pixels
    &&& b.gx_squared - a.gx_squared == gx * gx
    &&& b.gxgy - a.gxgy == gx * gy
    &&& b.gy_squared - a.gy_squared == gy * gy
}

/// New tensors are empty, and each quadrant has a quarter of the cell's pixels.
pub proof fn law_new_tensors(cell_w: u32, cell_h: u32, t: CellStructureTensors)
    requires
        cell_w % 2 == 0,
        cell_h % 2 == 0,
        (cell_w / 2) * (cell_h / 2) <= u32::MAX,
        CellStructureTensors::new.ensures((cell_w, cell_h), t),
    ensures
        t.cell_w == cell_w && t.cell_h == cell_h,
        t.tl == t.tr && t.tl == t.bl && t.tl == t.br,
        4 * t.tl.pixels == cell_w * cell_h,
        t.tl.gx_squared == 0 && t.tl.gxgy == 0 && t.tl.gy_squared == 0,
{
    let (a, b) = ((cell_w / 2) as int, (cell_h / 2) as int);
    assert(4 * (a * b) == cell_w * cell_h && 0 <= a * b) by (nonlinear_arith)
        requires
            cell_w == 2 * a,
            cell_h == 2 * b,
            0 <= a,
            0 <= b,
    ;
}

/// The parts of a cell, and the order in which their tensors are combined.
pub proof fn law_parts_of_a_cell(
    t: CellStructureTensors,
    all: [StructureTensor; 4],
    left: [StructureTensor; 2],
    right: [StructureTensor; 2],
    top: [StructureTensor; 2],
    bottom: [StructureTensor; 2],
)
    requires
        CellStructureTensors::combined.ensures((&t,), all),
        CellStructureTensors::left.ensures((&t,), left),
        CellStructureTensors::right.ensures((&t,), right),
        CellStructureTensors::top.ensures((&t,), top),
        CellStructureTensors::bottom.ensures((&t,), bottom),
    ensures
        all@[0] == t.tl && all@[1] == t.bl && all@[2] == t.tr && all@[3] == t.br,
        left@[0] == t.tl && left@[1] == t.bl,
        right@[0] == t.tr && right@[1] == t.br,
        top@[0] == t.tl && top@[1] == t.tr,
        bottom@[0] == t.bl && bottom@[1] == t.br,
{
}

/// The length of each gradient of an image is found on its own, by the difference across
/// and the difference down at the same place.
pub proof fn law_magnitudes(g: Gradients, r: Vec<u8>, i: int)
    requires
        g.gx@.len() == g.gy@.len(),
        Gradients::magnitudes.ensures((&g,), r),
    ensures
        r@.len() == g.gx@.len(),
        0 <= i < g.gx@.len() ==> ({
            let (m, s) = (r@[i] as int, g.gx@[i] * g.gx@[i] + g.gy@[i] * g.gy@[i]);
            &&& m > 0 ==> m * m - m < s
            &&& m < 255 ==> s <= m * m + m
        }),
{
    let m = r@[i] as int;
    assert((2 * m - 1) * (2 * m - 1) == 4 * (m * m - m) + 1) by (nonlinear_arith);
    assert((2 * m + 1) * (2 * m + 1) == 4 * (m * m + m) + 1) by (nonlinear_arith);
}

/// Accumulating a gradient adds its squares and its product.
pub proof fn law_accumulate_one(t: &mut StructureTensor, gx: i16, gy: i16)
    requires
        StructureTensor::accumulate.ensures((t, gx, gy), ()),
        old(t).has_room(),
    ensures
        added(*old(t), *final(t), gx as int, gy as int),
{
    lemma_product_bound(gx, gx);
    lemma_product_bound(gx, gy);
    lemma_product_bound(gy, gy);
}

/// There is a gradient for each pixel, and a measurement for each whole cell.
pub proof fn law_measurements_are_complete(
    planes: Planes,
    cell_w: u32,
    cell_h: u32,
    g: Gradients,
    r: Vec<CellSample>,
)
    requires
        planes.wf(),
        cell_w > 0,
        cell_h > 0,
        gradients.ensures((planes.width, planes.height, &planes.luma), g),
        measure_frame.ensures((&planes, cell_w, cell_h), r),
    ensures
        g.gx@.len() == planes.width * planes.height,
        g.gy@.len() == planes.width * planes.height,
        r@.len() == (planes.width / cell_w) * (planes.height / cell_h),
{
}

} // verus!
