//! From pixels to characters and back to pixels.
use vstd::prelude::*;
use crate::charset::{char_at, charset, law_charset_distinct, CHARS, CHAR_COUNT};
use crate::font_renderer::{atlas_rows, drawn_from, is_atlas, CharAtlas, Glyph, SizeMetrics};
use crate::frame::{
    clamp_to, gradients, luma_at, same_pixel, sobel_x, sobel_y, Gradients, Planes, RgbFrame,
    SourceImage,
};
use crate::structure_tensor::{
    area_sum, lemma_product_bound, pair, product, row_sum, valid_cell, CellStructureTensors,
    StructureTensor,
};

verus! {

/// The horizontal gradient at an offset from `(x0, y0)`.
pub open spec fn cell_gx(
    luma: Seq<u8>,
    width: int,
    height: int,
    x0: int,
    y0: int,
) -> spec_fn(int, int) -> int {
    |dx: int, dy: int| sobel_x(luma, width, height, x0 + dx, y0 + dy)
}

/// The vertical gradient at an offset from `(x0, y0)`.
pub open spec fn cell_gy(
    luma: Seq<u8>,
    width: int,
    height: int,
    x0: int,
    y0: int,
) -> spec_fn(int, int) -> int {
    |dx: int, dy: int| sobel_y(luma, width, height, x0 + dx, y0 + dy)
}

/// The values of the columns `x1..x2` and rows `y1..y2` of a plane, row by row.
pub open spec fn region(plane: Seq<u8>, width: int, x1: int, y1: int, x2: int, y2: int) -> Seq<u8>
    decreases y2 - y1,
{
    if y2 <= y1 {
        Seq::empty()
    } else {
        region(plane, width, x1, y1, x2, y2 - 1) + plane.subrange(
            (y2 - 1) * width + x1,
            (y2 - 1) * width + x2,
        )
    }
}

/// A position inside an image has its place inside the image's buffer.
pub(crate) proof fn lemma_index(width: int, height: int, x: int, y: int)
    requires
        0 <= x <= width,
        0 <= y < height,
    ensures
        0 <= y * width,
        y * width + width <= width * height,
{
    assert(0 <= y * width && y * width + width <= width * height) by (nonlinear_arith)
        requires
            0 <= width,
            0 <= y < height,
    ;
}

/// Sums the gradient products of one rectangle of a cell and lists its luma values.
///
/// The cell starts at `(x, y)`; the rectangle takes the columns `x1..x2` and
/// rows `y1..y2`, counted from there.
fn measure_quadrant(
    planes: &Planes,
    grad: &Gradients,
    x: u32,
    y: u32,
    x1: u32,
    y1: u32,
    x2: u32,
    y2: u32,
    tensor: &mut StructureTensor,
    samples: &mut Vec<u8>,
)
    requires
        planes.wf(),
        grad.of(planes.luma@, planes.width as int, planes.height as int),
        x1 <= x2,
        y1 <= y2,
        x + x2 <= planes.width,
        y + y2 <= planes.height,
        (x2 - x1) * (y2 - y1) <= u32::MAX,
    ensures
        final(tensor).pixels == old(tensor).pixels,
        final(tensor).sums(
            cell_gx(planes.luma@, planes.width as int, planes.height as int, x as int, y as int),
            cell_gy(planes.luma@, planes.width as int, planes.height as int, x as int, y as int),
            x1 as int,
            y1 as int,
            x2 as int,
            y2 as int,
        ),
        final(samples)@ == old(samples)@ + region(
            planes.luma@,
            planes.width as int,
            x + x1,
            y + y1,
            x + x2,
            y + y2,
        ),
{
    let ghost w = planes.width as int;
    let ghost h = planes.height as int;
    let ghost fx = cell_gx(planes.luma@, w, h, x as int, y as int);
    let ghost fy = cell_gy(planes.luma@, w, h, x as int, y as int);
    let ghost before = samples@;
    let ghost span = x2 - x1;
    let size: usize = planes.luma.len();
    let mut gx_squared: i64 = 0;
    let mut gxgy: i64 = 0;
    let mut gy_squared: i64 = 0;
    let mut dy: u32 = y1;
    while dy < y2
        invariant
            planes.wf(),
            grad.of(planes.luma@, w, h),
            w * h == size,
            w == planes.width,
            h == planes.height,
            fx == cell_gx(planes.luma@, w, h, x as int, y as int),
            fy == cell_gy(planes.luma@, w, h, x as int, y as int),
            x1 <= x2,
            y1 <= dy <= y2,
            x + x2 <= w,
            y + y2 <= h,
            span == x2 - x1,
            span * (y2 - y1) <= u32::MAX,
            gx_squared == area_sum(product(fx, fx), x1 as int, y1 as int, x2 as int, dy as int),
            gxgy == area_sum(product(fx, fy), x1 as int, y1 as int, x2 as int, dy as int),
            gy_squared == area_sum(product(fy, fy), x1 as int, y1 as int, x2 as int, dy as int),
            -(span * (dy - y1)) * 0x4000_0000 <= gx_squared <= span * (dy - y1) * 0x4000_0000,
            -(span * (dy - y1)) * 0x4000_0000 <= gxgy <= span * (dy - y1) * 0x4000_0000,
            -(span * (dy - y1)) * 0x4000_0000 <= gy_squared <= span * (dy - y1) * 0x4000_0000,
            samples@ == before + region(planes.luma@, w, x + x1, y + y1, x + x2, y + dy),
        decreases y2 - dy,
    {
        let ghost rows_before = samples@;
        let ghost seen = span * (dy - y1);
        let ghost (a0, b0, c0) = (gx_squared as int, gxgy as int, gy_squared as int);
        assert(seen + span <= u32::MAX && seen + span == span * (dy + 1 - y1) && seen >= 0)
            by (nonlinear_arith)
            requires
                seen == span * (dy - y1),
                y1 <= dy < y2,
                0 <= span,
                span * (y2 - y1) <= u32::MAX,
        ;
        proof {
            lemma_index(w, h, x + x1, y + dy);
        }
        let mut dx: u32 = x1;
        while dx < x2
            invariant
                planes.wf(),
                grad.of(planes.luma@, w, h),
                w * h == size,
                w == planes.width,
                h == planes.height,
                fx == cell_gx(planes.luma@, w, h, x as int, y as int),
                fy == cell_gy(planes.luma@, w, h, x as int, y as int),
                x1 <= dx <= x2,
                y1 <= dy < y2,
                x + x2 <= w,
                y + y2 <= h,
                span == x2 - x1,
                0 <= seen,
                seen + span <= u32::MAX,
                gx_squared == a0 + row_sum(product(fx, fx), dy as int, x1 as int, dx as int),
                gxgy == b0 + row_sum(product(fx, fy), dy as int, x1 as int, dx as int),
                gy_squared == c0 + row_sum(product(fy, fy), dy as int, x1 as int, dx as int),
                -(seen + (dx - x1)) * 0x4000_0000 <= gx_squared <= (seen + (dx - x1)) * 0x4000_0000,
                -(seen + (dx - x1)) * 0x4000_0000 <= gxgy <= (seen + (dx - x1)) * 0x4000_0000,
                -(seen + (dx - x1)) * 0x4000_0000 <= gy_squared <= (seen + (dx - x1)) * 0x4000_0000,
                samples@ == rows_before + planes.luma@.subrange(
                    (y + dy) * w + (x + x1),
                    (y + dy) * w + (x + dx),
                ),
            decreases x2 - dx,
        {
            proof {
                lemma_index(w, h, x + dx, y + dy);
            }
            let at: usize = (y + dy) as usize * planes.width as usize + (x + dx) as usize;
            let gx: i16 = grad.gx[at];
            let gy: i16 = grad.gy[at];
            proof {
                assert(gx == sobel_x(planes.luma@, w, h, x + dx, y + dy));
                assert(gy == sobel_y(planes.luma@, w, h, x + dx, y + dy));
                assert(fx(dx as int, dy as int) == gx);
                assert(fy(dx as int, dy as int) == gy);
                lemma_product_bound(gx, gx);
                lemma_product_bound(gx, gy);
                lemma_product_bound(gy, gy);
            }
            gx_squared = gx_squared + gx as i64 * gx as i64;
            gxgy = gxgy + gx as i64 * gy as i64;
            gy_squared = gy_squared + gy as i64 * gy as i64;
            samples.push(planes.luma[at]);
            dx = dx + 1;
        }
        dy = dy + 1;
    }
    tensor.gx_squared = gx_squared;
    tensor.gxgy = gxgy;
    tensor.gy_squared = gy_squared;
}

/// The part of a side that whole cells cover.
pub open spec fn snapped(side: u32, cell: u32) -> int {
    (side / cell) * cell
}

/// How many whole cells an image holds.
pub open spec fn cell_count(width: u32, height: u32, cell_w: u32, cell_h: u32) -> int {
    (width / cell_w) * (height / cell_h)
}

/// An image and a cell size that can be converted: the cells are not empty, the
/// RGB buffer of the covered part is no longer than `u32::MAX`, and if there is
/// any whole cell its sides are even.
pub open spec fn frame_fits(width: u32, height: u32, cell_w: u32, cell_h: u32) -> bool {
    &&& cell_w > 0
    &&& cell_h > 0
    &&& cell_w * cell_h <= u32::MAX
    &&& snapped(width, cell_w) * snapped(height, cell_h) * 3 <= u32::MAX
    &&& cell_count(width, height, cell_w, cell_h) > 0 ==> cell_w % 2 == 0 && cell_h % 2 == 0
}

/// What is measured of one cell.
pub struct CellSample {
    /// The gradient sums of the four quadrants.
    pub tensors: CellStructureTensors,
    /// The luma values: those of the top left quadrant row by row, then those of
    /// the top right, the bottom left and the bottom right one.
    pub luma: Vec<u8>,
}

/// The luma values of a cell, quadrant by quadrant.
pub open spec fn cell_luma(
    luma: Seq<u8>,
    width: int,
    x: int,
    y: int,
    half_w: int,
    half_h: int,
) -> Seq<u8> {
    region(luma, width, x, y, x + half_w, y + half_h) + region(
        luma,
        width,
        x + half_w,
        y,
        x + half_w * 2,
        y + half_h,
    ) + region(luma, width, x, y + half_h, x + half_w, y + half_h * 2) + region(
        luma,
        width,
        x + half_w,
        y + half_h,
        x + half_w * 2,
        y + half_h * 2,
    )
}

impl CellSample {
    /// This is the measurement of the cell whose top left pixel is `(x, y)`.
    pub open spec fn of(self, planes: Planes, cell_w: u32, cell_h: u32, x: int, y: int) -> bool {
        let width = planes.width as int;
        let height = planes.height as int;
        let empty = CellStructureTensors::empty(cell_w, cell_h);
        &&& self.tensors.cell_w == cell_w
        &&& self.tensors.cell_h == cell_h
        &&& self.tensors.tl.pixels == empty.tl.pixels
        &&& self.tensors.tr.pixels == empty.tr.pixels
        &&& self.tensors.bl.pixels == empty.bl.pixels
        &&& self.tensors.br.pixels == empty.br.pixels
        &&& self.tensors.describes(
            cell_gx(planes.luma@, width, height, x, y),
            cell_gy(planes.luma@, width, height, x, y),
        )
        &&& self.luma@ == cell_luma(
            planes.luma@,
            width,
            x,
            y,
            (cell_w / 2) as int,
            (cell_h / 2) as int,
        )
    }
}

/// Measures the cell whose top left pixel is `(x, y)`.
fn measure_cell(
    planes: &Planes,
    grad: &Gradients,
    cell_w: u32,
    cell_h: u32,
    x: u32,
    y: u32,
) -> (r: CellSample)
    requires
        planes.wf(),
        grad.of(planes.luma@, planes.width as int, planes.height as int),
        valid_cell(cell_w, cell_h),
        x + cell_w <= planes.width,
        y + cell_h <= planes.height,
    ensures
        r.of(*planes, cell_w, cell_h, x as int, y as int),
{
    let half_w: u32 = cell_w / 2;
    let half_h: u32 = cell_h / 2;
    let mut tensors = CellStructureTensors::new(cell_w, cell_h);
    let mut luma: Vec<u8> = Vec::new();
    measure_quadrant(planes, grad, x, y, 0, 0, half_w, half_h, &mut tensors.tl, &mut luma);
    measure_quadrant(planes, grad, x, y, half_w, 0, half_w * 2, half_h, &mut tensors.tr, &mut luma);
    measure_quadrant(planes, grad, x, y, 0, half_h, half_w, half_h * 2, &mut tensors.bl, &mut luma);
    measure_quadrant(
        planes,
        grad,
        x,
        y,
        half_w,
        half_h,
        half_w * 2,
        half_h * 2,
        &mut tensors.br,
        &mut luma,
    );
    CellSample { tensors, luma }
}

/// The cell with number `k`, counted row by row, lies inside the image.
pub(crate) proof fn lemma_cell_inside(width: u32, height: u32, cell_w: u32, cell_h: u32, k: int)
    requires
        cell_w > 0,
        cell_h > 0,
        0 <= k < cell_count(width, height, cell_w, cell_h),
    ensures
        width / cell_w > 0,
        height / cell_h > 0,
        0 <= k % (width / cell_w) as int,
        0 <= k / (width / cell_w) as int,
        0 <= (k % (width / cell_w) as int) * cell_w,
        (k % (width / cell_w) as int) * cell_w + cell_w <= snapped(width, cell_w) <= width,
        0 <= (k / (width / cell_w) as int) * cell_h,
        (k / (width / cell_w) as int) * cell_h + cell_h <= snapped(height, cell_h) <= height,
{
    let cols = (width / cell_w) as int;
    let rows = (height / cell_h) as int;
    assert(cols > 0 && rows > 0) by (nonlinear_arith)
        requires
            0 <= cols,
            0 <= rows,
            0 < cols * rows,
    ;
    let col = k % cols;
    let row = k / cols;
    assert(0 <= row < rows && 0 <= col < cols) by (nonlinear_arith)
        requires
            col == k % cols,
            row == k / cols,
            0 < cols,
            0 <= k < cols * rows,
    ;
    assert(0 <= col * cell_w && col * cell_w + cell_w <= cols * cell_w <= width)
        by (nonlinear_arith)
        requires
            0 <= col < cols,
            cell_w > 0,
            cols == width as int / cell_w as int,
    ;
    assert(0 <= row * cell_h && row * cell_h + cell_h <= rows * cell_h <= height)
        by (nonlinear_arith)
        requires
            0 <= row < rows,
            cell_h > 0,
            rows == height as int / cell_h as int,
    ;
}

/// A cell count of a convertible image fits in 32 bits.
proof fn lemma_cell_count_fits(width: u32, height: u32, cell_w: u32, cell_h: u32)
    requires
        frame_fits(width, height, cell_w, cell_h),
    ensures
        0 <= cell_count(width, height, cell_w, cell_h) <= u32::MAX,
        cell_count(width, height, cell_w, cell_h) > 0 ==> valid_cell(cell_w, cell_h),
{
    let cols = (width / cell_w) as int;
    let rows = (height / cell_h) as int;
    assert(0 <= cols * rows <= (cols * cell_w) * (rows * cell_h) <= (cols * cell_w) * (rows
        * cell_h) * 3) by (nonlinear_arith)
        requires
            0 <= cols,
            0 <= rows,
            cell_w > 0,
            cell_h > 0,
    ;
    assert((cell_w / 2) * (cell_h / 2) <= cell_w * cell_h) by (nonlinear_arith);
}

/// Measures every whole cell of an image, row by row from the top left corner.
pub fn measure_frame(planes: &Planes, cell_w: u32, cell_h: u32) -> (r: Vec<CellSample>)
    requires
        planes.wf(),
        frame_fits(planes.width, planes.height, cell_w, cell_h),
    ensures
        measures(r@, *planes, cell_w, cell_h),
{
    let grad = gradients(planes.width, planes.height, &planes.luma);
    let cols: u32 = planes.width / cell_w;
    let rows: u32 = planes.height / cell_h;
    proof {
        lemma_cell_count_fits(planes.width, planes.height, cell_w, cell_h);
    }
    let count: u32 = cols * rows;
    let mut samples: Vec<CellSample> = Vec::new();
    let mut k: u32 = 0;
    while k < count
        invariant
            planes.wf(),
            grad.of(planes.luma@, planes.width as int, planes.height as int),
            cell_w > 0,
            cell_h > 0,
            count > 0 ==> valid_cell(cell_w, cell_h),
            cols == planes.width / cell_w,
            count == cell_count(planes.width, planes.height, cell_w, cell_h),
            k <= count,
            samples@.len() == k,
            forall|j: int|
                0 <= j < k ==> (#[trigger] samples@[j]).of(
                    *planes,
                    cell_w,
                    cell_h,
                    (j % cols as int) * cell_w,
                    (j / cols as int) * cell_h,
                ),
        decreases count - k,
    {
        proof {
            lemma_cell_inside(planes.width, planes.height, cell_w, cell_h, k as int);
        }
        let x: u32 = (k % cols) * cell_w;
        let y: u32 = (k / cols) * cell_h;
        samples.push(measure_cell(planes, &grad, cell_w, cell_h, x, y));
        k = k + 1;
    }
    samples
}

/// Whether samples are the measurements of the whole cells of an image, row by row.
pub open spec fn measures(
    samples: Seq<CellSample>,
    planes: Planes,
    cell_w: u32,
    cell_h: u32,
) -> bool {
    &&& samples.len() == cell_count(planes.width, planes.height, cell_w, cell_h)
    &&& forall|k: int|
        0 <= k < samples.len() ==> (#[trigger] samples[k]).of(
            planes,
            cell_w,
            cell_h,
            (k % (planes.width / cell_w) as int) * cell_w,
            (k / (planes.width / cell_w) as int) * cell_h,
        )
}

/// Whether two images of one size have the same luma in a cell, whose top left pixel is
/// `(x, y)`, and in the ring of one pixel round it.
pub open spec fn agree_round_cell(
    a: Planes,
    b: Planes,
    cell_w: u32,
    cell_h: u32,
    x: int,
    y: int,
) -> bool {
    &&& a.width == b.width
    &&& a.height == b.height
    &&& forall|u: int, v: int|
        #![trigger luma_at(a.luma@, a.width as int, a.height as int, u, v)]
        x - 1 <= u <= x + cell_w && y - 1 <= v <= y + cell_h && 0 <= u < a.width && 0 <= v
            < a.height ==> luma_at(a.luma@, a.width as int, a.height as int, u, v) == luma_at(
            b.luma@,
            a.width as int,
            a.height as int,
            u,
            v,
        )
}

/// What is measured of a cell, and so the character that any way of reading it chooses,
/// depends on the cell and the ring of one pixel round it alone: images that agree there
/// give the same sample for the cell in column `col` and row `row`.
pub proof fn law_cells_are_local(
    a: Planes,
    b: Planes,
    cell_w: u32,
    cell_h: u32,
    samples_a: Seq<CellSample>,
    samples_b: Seq<CellSample>,
    col: int,
    row: int,
    read: spec_fn(CellStructureTensors, Seq<u8>) -> CellReading,
)
    requires
        a.wf(),
        b.wf(),
        cell_w > 0,
        cell_h > 0,
        measures(samples_a, a, cell_w, cell_h),
        measures(samples_b, b, cell_w, cell_h),
        0 <= col < a.width / cell_w,
        0 <= row < a.height / cell_h,
        agree_round_cell(a, b, cell_w, cell_h, col * cell_w, row * cell_h),
    ensures
        ({
            let k = row * (a.width / cell_w) + col;
            &&& 0 <= k < samples_a.len()
            &&& samples_a.len() == samples_b.len()
            &&& samples_a[k].tensors == samples_b[k].tensors
            &&& samples_a[k].luma@ == samples_b[k].luma@
            &&& read(samples_a[k].tensors, samples_a[k].luma@).index() == read(
                samples_b[k].tensors,
                samples_b[k].luma@,
            ).index()
        }),
{
    let cols = (a.width / cell_w) as int;
    let rows = (a.height / cell_h) as int;
    let k = row * cols + col;
    lemma_index(cols, rows, col, row);
    vstd::arithmetic::div_mod::lemma_fundamental_div_mod_converse(k, cols, row, col);
    lemma_cell_inside(a.width, a.height, cell_w, cell_h, k);
    lemma_sample_is_local(
        a,
        b,
        cell_w,
        cell_h,
        col * cell_w,
        row * cell_h,
        samples_a[k],
        samples_b[k],
    );
}

/// Whether two images of one size and layout have the same samples for every pixel of a
/// cell, whose top left pixel is `(x, y)`, and of the ring of one pixel round it.
pub open spec fn images_agree_round_cell(
    a: SourceImage,
    b: SourceImage,
    cell_w: u32,
    cell_h: u32,
    x: int,
    y: int,
) -> bool {
    &&& a.width == b.width
    &&& a.height == b.height
    &&& a.layout == b.layout
    &&& forall|u: int, v: int|
        x - 1 <= u <= x + cell_w && y - 1 <= v <= y + cell_h && 0 <= u < a.width && 0 <= v
            < a.height ==> same_pixel(a, b, #[trigger] pixel_number(a.width as int, u, v))
}

/// The number of the pixel at a position, counted row by row.
pub open spec fn pixel_number(width: int, x: int, y: int) -> int {
    y * width + x
}

/// The character of a cell depends on the pixels of the cell and of the ring of one pixel
/// round it alone: images that agree there give the same sample for the cell in column
/// `col` and row `row`, and so the same character by any way of reading it. Of coloured
/// images this holds where their conversion to luma gave equal pixels equal values.
pub proof fn law_image_cells_are_local(
    a: SourceImage,
    b: SourceImage,
    planes_a: Planes,
    planes_b: Planes,
    cell_w: u32,
    cell_h: u32,
    samples_a: Seq<CellSample>,
    samples_b: Seq<CellSample>,
    col: int,
    row: int,
    read: spec_fn(CellStructureTensors, Seq<u8>) -> CellReading,
)
    requires
        a.wf(),
        b.wf(),
        planes_a.of(a),
        planes_b.of(b),
        cell_w > 0,
        cell_h > 0,
        measures(samples_a, planes_a, cell_w, cell_h),
        measures(samples_b, planes_b, cell_w, cell_h),
        0 <= col < a.width / cell_w,
        0 <= row < a.height / cell_h,
        images_agree_round_cell(a, b, cell_w, cell_h, col * cell_w, row * cell_h),
        a.layout.coloured() ==> forall|p: int|
            0 <= p < a.width * a.height && same_pixel(a, b, p) ==> #[trigger] planes_a.luma@[p]
                == planes_b.luma@[p],
    ensures
        ({
            let k = row * (a.width / cell_w) + col;
            &&& 0 <= k < samples_a.len()
            &&& samples_a.len() == samples_b.len()
            &&& samples_a[k].tensors == samples_b[k].tensors
            &&& samples_a[k].luma@ == samples_b[k].luma@
            &&& read(samples_a[k].tensors, samples_a[k].luma@).index() == read(
                samples_b[k].tensors,
                samples_b[k].luma@,
            ).index()
        }),
{
    let (w, h) = (a.width as int, a.height as int);
    let (x, y) = (col * cell_w, row * cell_h);
    assert forall|u: int, v: int|
        #![trigger luma_at(planes_a.luma@, w, h, u, v)]
        x - 1 <= u <= x + cell_w && y - 1 <= v <= y + cell_h && 0 <= u < w && 0 <= v
            < h implies luma_at(planes_a.luma@, w, h, u, v) == luma_at(
        planes_b.luma@,
        w,
        h,
        u,
        v,
    ) by {
        let p = pixel_number(w, u, v);
        lemma_index(w, h, u, v);
        assert(same_pixel(a, b, p));
        assert(a.luma_of(p, planes_a.luma@[p] as int));
        assert(b.luma_of(p, planes_b.luma@[p] as int));
        if !a.layout.coloured() {
            assert(a.layout.sample(p, 0) == p * a.layout.channels() + 0);
        }
    }
    assert(agree_round_cell(planes_a, planes_b, cell_w, cell_h, x, y));
    law_cells_are_local(
        planes_a,
        planes_b,
        cell_w,
        cell_h,
        samples_a,
        samples_b,
        col,
        row,
        read,
    );
}

/// Images that agree in a cell and round it give the same sample for it.
proof fn lemma_sample_is_local(
    a: Planes,
    b: Planes,
    cell_w: u32,
    cell_h: u32,
    x: int,
    y: int,
    sample_a: CellSample,
    sample_b: CellSample,
)
    requires
        a.wf(),
        b.wf(),
        cell_w > 0,
        cell_h > 0,
        0 <= x,
        0 <= y,
        x + cell_w <= a.width,
        y + cell_h <= a.height,
        agree_round_cell(a, b, cell_w, cell_h, x, y),
        sample_a.of(a, cell_w, cell_h, x, y),
        sample_b.of(b, cell_w, cell_h, x, y),
    ensures
        sample_a.tensors == sample_b.tensors,
        sample_a.luma@ == sample_b.luma@,
{
    let (w, h) = (a.width as int, a.height as int);
    let (la, lb) = (a.luma@, b.luma@);
    let (cw, ch) = (cell_w as int, cell_h as int);
    assert forall|u: int, v: int| x - 1 <= u <= x + cw && y - 1 <= v <= y + ch implies #[trigger]
        luma_at(la, w, h, u, v) == luma_at(lb, w, h, u, v) by {
        let (cu, cv) = (clamp_to(u, w), clamp_to(v, h));
        assert(luma_at(la, w, h, cu, cv) == luma_at(lb, w, h, cu, cv));
    }
    let (xa, xb) = (cell_gx(la, w, h, x, y), cell_gx(lb, w, h, x, y));
    let (ya, yb) = (cell_gy(la, w, h, x, y), cell_gy(lb, w, h, x, y));
    assert forall|dx: int, dy: int| 0 <= dx < cw && 0 <= dy < ch implies #[trigger] xa(dx, dy)
        == xb(dx, dy) && ya(dx, dy) == yb(dx, dy) by {}
    let (hw, hh) = ((cell_w / 2) as int, (cell_h / 2) as int);
    lemma_sums_agree(xa, ya, xb, yb, cw, ch, 0, 0, hw, hh);
    lemma_sums_agree(xa, ya, xb, yb, cw, ch, hw, 0, hw * 2, hh);
    lemma_sums_agree(xa, ya, xb, yb, cw, ch, 0, hh, hw, hh * 2);
    lemma_sums_agree(xa, ya, xb, yb, cw, ch, hw, hh, hw * 2, hh * 2);
    assert forall|u: int, v: int| x <= u < x + cw && y <= v < y + ch implies #[trigger] plane_at(
        la,
        w,
        u,
        v,
    ) == plane_at(lb, w, u, v) by {
        assert(luma_at(la, w, h, u, v) == luma_at(lb, w, h, u, v));
    }
    lemma_regions_agree(la, lb, w, h, x, y, x + cw, y + ch, x, y, x + hw, y + hh);
    lemma_regions_agree(la, lb, w, h, x, y, x + cw, y + ch, x + hw, y, x + hw * 2, y + hh);
    lemma_regions_agree(la, lb, w, h, x, y, x + cw, y + ch, x, y + hh, x + hw, y + hh * 2);
    lemma_regions_agree(
        la,
        lb,
        w,
        h,
        x,
        y,
        x + cw,
        y + ch,
        x + hw,
        y + hh,
        x + hw * 2,
        y + hh * 2,
    );
}

/// Sums of products of gradients that agree in a cell are equal over its rectangles.
proof fn lemma_sums_agree(
    xa: spec_fn(int, int) -> int,
    ya: spec_fn(int, int) -> int,
    xb: spec_fn(int, int) -> int,
    yb: spec_fn(int, int) -> int,
    cw: int,
    ch: int,
    x1: int,
    y1: int,
    x2: int,
    y2: int,
)
    requires
        0 <= x1 <= x2 <= cw,
        0 <= y1 <= y2 <= ch,
        forall|dx: int, dy: int|
            0 <= dx < cw && 0 <= dy < ch ==> #[trigger] xa(dx, dy) == xb(dx, dy) && ya(dx, dy)
                == yb(dx, dy),
    ensures
        area_sum(product(xa, xa), x1, y1, x2, y2) == area_sum(product(xb, xb), x1, y1, x2, y2),
        area_sum(product(xa, ya), x1, y1, x2, y2) == area_sum(product(xb, yb), x1, y1, x2, y2),
        area_sum(product(ya, ya), x1, y1, x2, y2) == area_sum(product(yb, yb), x1, y1, x2, y2),
{
    assert forall|dx: int, dy: int| 0 <= dx < cw && 0 <= dy < ch implies #[trigger] product(xa, xa)(
        dx,
        dy,
    ) == product(xb, xb)(dx, dy) by {
        assert(xa(dx, dy) == xb(dx, dy));
    }
    assert forall|dx: int, dy: int| 0 <= dx < cw && 0 <= dy < ch implies #[trigger] product(xa, ya)(
        dx,
        dy,
    ) == product(xb, yb)(dx, dy) by {
        assert(xa(dx, dy) == xb(dx, dy));
    }
    assert forall|dx: int, dy: int| 0 <= dx < cw && 0 <= dy < ch implies #[trigger] product(ya, ya)(
        dx,
        dy,
    ) == product(yb, yb)(dx, dy) by {
        assert(xa(dx, dy) == xb(dx, dy));
    }
    lemma_area_agrees(product(xa, xa), product(xb, xb), cw, ch, x1, y1, x2, y2);
    lemma_area_agrees(product(xa, ya), product(xb, yb), cw, ch, x1, y1, x2, y2);
    lemma_area_agrees(product(ya, ya), product(yb, yb), cw, ch, x1, y1, x2, y2);
}

/// Functions that agree in a cell have the same sum over a rectangle of it.
proof fn lemma_area_agrees(
    f: spec_fn(int, int) -> int,
    g: spec_fn(int, int) -> int,
    cw: int,
    ch: int,
    x1: int,
    y1: int,
    x2: int,
    y2: int,
)
    requires
        0 <= x1 <= x2 <= cw,
        0 <= y1 <= y2 <= ch,
        forall|dx: int, dy: int|
            0 <= dx < cw && 0 <= dy < ch ==> #[trigger] f(dx, dy) == g(dx, dy),
    ensures
        area_sum(f, x1, y1, x2, y2) == area_sum(g, x1, y1, x2, y2),
    decreases y2 - y1,
{
    if y1 < y2 {
        lemma_area_agrees(f, g, cw, ch, x1, y1, x2, y2 - 1);
        lemma_row_agrees(f, g, cw, ch, y2 - 1, x1, x2);
    }
}

/// Functions that agree in a cell have the same sum over a part of a row of it.
proof fn lemma_row_agrees(
    f: spec_fn(int, int) -> int,
    g: spec_fn(int, int) -> int,
    cw: int,
    ch: int,
    y: int,
    x1: int,
    x2: int,
)
    requires
        0 <= x1 <= x2 <= cw,
        0 <= y < ch,
        forall|dx: int, dy: int|
            0 <= dx < cw && 0 <= dy < ch ==> #[trigger] f(dx, dy) == g(dx, dy),
    ensures
        row_sum(f, y, x1, x2) == row_sum(g, y, x1, x2),
    decreases x2 - x1,
{
    if x1 < x2 {
        lemma_row_agrees(f, g, cw, ch, y, x1, x2 - 1);
        assert(f(x2 - 1, y) == g(x2 - 1, y));
    }
}

/// The value of a plane at a position.
spec fn plane_at(plane: Seq<u8>, width: int, x: int, y: int) -> u8 {
    plane[y * width + x]
}

/// Planes that agree in a rectangle have the same values in each rectangle inside it.
proof fn lemma_regions_agree(
    a: Seq<u8>,
    b: Seq<u8>,
    width: int,
    height: int,
    left: int,
    top: int,
    right: int,
    bottom: int,
    x1: int,
    y1: int,
    x2: int,
    y2: int,
)
    requires
        a.len() == width * height,
        b.len() == width * height,
        0 <= left <= x1 <= x2 <= right <= width,
        0 <= top <= y1 <= y2 <= bottom <= height,
        forall|u: int, v: int|
            left <= u < right && top <= v < bottom ==> #[trigger] plane_at(a, width, u, v)
                == plane_at(b, width, u, v),
    ensures
        region(a, width, x1, y1, x2, y2) == region(b, width, x1, y1, x2, y2),
    decreases y2 - y1,
{
    if y1 < y2 {
        lemma_regions_agree(a, b, width, height, left, top, right, bottom, x1, y1, x2, y2 - 1);
        let v = y2 - 1;
        lemma_index(width, height, x1, v);
        let row_a = a.subrange(v * width + x1, v * width + x2);
        let row_b = b.subrange(v * width + x1, v * width + x2);
        assert forall|i: int| 0 <= i < row_a.len() implies row_a[i] == row_b[i] by {
            assert(plane_at(a, width, x1 + i, v) == plane_at(b, width, x1 + i, v));
        }
        assert(row_a =~= row_b);
    }
}

/// The outcomes of the stroke tests on the regions of a cell.
///
/// A region holds a stroke of a direction if its gradients are strong, agree with
/// each other and cross that direction. It joins a direction if its gradients are
/// strong and lean towards crossing it.
#[derive(Clone, Copy, Debug, PartialEq, Eq, Structural)]
pub struct StrokeTests {
    pub left_backslash: bool,
    pub left_slash: bool,
    pub right_backslash: bool,
    pub right_slash: bool,
    pub top_backslash: bool,
    pub top_slash: bool,
    pub bottom_backslash: bool,
    pub bottom_slash: bool,
    pub bottom_vertical: bool,
    pub top_joins_horizontal: bool,
    pub left_joins_vertical: bool,
    /// The top right quadrant has hardly any gradient.
    pub top_right_quiet: bool,
    pub bottom_right_horizontal: bool,
    pub top_left_backslash: bool,
    pub top_right_slash: bool,
    pub bottom_left_slash: bool,
    pub bottom_right_backslash: bool,
}

impl StrokeTests {
    /// Whether the strokes form the edge character with an index.
    pub open spec fn forms(self, edge: int) -> bool {
        if edge == 5 {
            // V
            self.left_backslash && self.right_slash
        } else if edge == 4 {
            // ^
            self.left_slash && self.right_backslash
        } else if edge == 7 {
            // >
            self.top_backslash && self.bottom_slash
        } else if edge == 6 {
            // <
            self.top_slash && self.bottom_backslash
        } else if edge == 8 {
            // T
            self.top_joins_horizontal && self.bottom_vertical
        } else if edge == 9 {
            // L
            self.top_right_quiet && self.left_joins_vertical && self.bottom_right_horizontal
        } else if edge == 10 {
            // X
            self.top_left_backslash && self.top_right_slash && self.bottom_left_slash
                && self.bottom_right_backslash
        } else {
            false
        }
    }
}

/// The edge characters made of several strokes, most preferred first.
pub open spec fn special_order() -> Seq<int> {
    seq![5, 4, 7, 6, 8, 9, 10]
}

/// The first edge character of `special_order` from place `from` on that the
/// strokes form.
pub open spec fn first_special(tests: StrokeTests, from: int) -> Option<int>
    decreases special_order().len() - from,
{
    if from >= special_order().len() {
        None
    } else if tests.forms(special_order()[from]) {
        Some(special_order()[from])
    } else {
        first_special(tests, from + 1)
    }
}

impl StrokeTests {
    /// No half of the cell holds a slash and a backslash at once.
    pub open spec fn consistent(self) -> bool {
        &&& !(self.left_backslash && self.left_slash)
        &&& !(self.right_backslash && self.right_slash)
        &&& !(self.top_backslash && self.top_slash)
        &&& !(self.bottom_backslash && self.bottom_slash)
    }

    /// The left and the right half hold each other's diagonals.
    pub open spec fn swaps_sides(self, other: Self) -> bool {
        &&& self.left_backslash == other.right_backslash
        &&& self.left_slash == other.right_slash
        &&& self.right_backslash == other.left_backslash
        &&& self.right_slash == other.left_slash
    }

    /// The top and the bottom half hold each other's diagonals; the left and the right half
    /// keep theirs.
    pub open spec fn swaps_ends(self, other: Self) -> bool {
        &&& self.left_backslash == other.left_backslash
        &&& self.left_slash == other.left_slash
        &&& self.right_backslash == other.right_backslash
        &&& self.right_slash == other.right_slash
        &&& self.top_backslash == other.bottom_backslash
        &&& self.top_slash == other.bottom_slash
        &&& self.bottom_backslash == other.top_backslash
        &&& self.bottom_slash == other.top_slash
    }
}

/// Exchanging the left and the right half of a cell turns V into ^ and back.
pub proof fn law_sides_mirror(tests: StrokeTests, mirrored: StrokeTests)
    requires
        tests.consistent(),
        mirrored.swaps_sides(tests),
    ensures
        first_special(tests, 0) == Some(5int) <==> first_special(mirrored, 0) == Some(4int),
{
    reveal_with_fuel(first_special, 8);
}

/// Exchanging the top and the bottom half of a cell turns > into < and back.
pub proof fn law_ends_mirror(tests: StrokeTests, mirrored: StrokeTests)
    requires
        tests.consistent(),
        mirrored.swaps_ends(tests),
    ensures
        first_special(tests, 0) == Some(7int) <==> first_special(mirrored, 0) == Some(6int),
{
    reveal_with_fuel(first_special, 8);
}

/// Whether a test on a part of a cell does not depend on the order of its quadrants.
pub open spec fn ignores_order(test: spec_fn(Seq<StructureTensor>) -> bool) -> bool {
    forall|a: StructureTensor, b: StructureTensor|
        #[trigger] test(pair(a, b)) == test(pair(b, a))
}

impl StrokeTests {
    /// The diagonals of the halves are those that two tests find in a cell.
    pub open spec fn reads(
        self,
        cell: CellStructureTensors,
        slash: spec_fn(Seq<StructureTensor>) -> bool,
        backslash: spec_fn(Seq<StructureTensor>) -> bool,
    ) -> bool {
        &&& self.left_slash == slash(cell.spec_left())
        &&& self.left_backslash == backslash(cell.spec_left())
        &&& self.right_slash == slash(cell.spec_right())
        &&& self.right_backslash == backslash(cell.spec_right())
        &&& self.top_slash == slash(cell.spec_top())
        &&& self.top_backslash == backslash(cell.spec_top())
        &&& self.bottom_slash == slash(cell.spec_bottom())
        &&& self.bottom_backslash == backslash(cell.spec_bottom())
    }
}

/// A cell is read as V exactly if the cell with its left and right quadrants exchanged is
/// read as ^, and as > exactly if the cell with its top and bottom quadrants exchanged is
/// read as <. This holds for any two tests that never find both diagonals in one part of a
/// cell and do not depend on the order of its quadrants.
pub proof fn law_exchanged_cells_mirror(
    cell: CellStructureTensors,
    slash: spec_fn(Seq<StructureTensor>) -> bool,
    backslash: spec_fn(Seq<StructureTensor>) -> bool,
    tests: StrokeTests,
    sides: StrokeTests,
    ends: StrokeTests,
)
    requires
        forall|part: Seq<StructureTensor>| !(#[trigger] slash(part) && #[trigger] backslash(part)),
        ignores_order(slash),
        ignores_order(backslash),
        tests.reads(cell, slash, backslash),
        sides.reads(cell.sides_exchanged(), slash, backslash),
        ends.reads(cell.ends_exchanged(), slash, backslash),
    ensures
        first_special(tests, 0) == Some(5int) <==> first_special(sides, 0) == Some(4int),
        first_special(tests, 0) == Some(7int) <==> first_special(ends, 0) == Some(6int),
{
    assert(slash(pair(cell.bl, cell.tl)) == slash(pair(cell.tl, cell.bl)));
    assert(slash(pair(cell.br, cell.tr)) == slash(pair(cell.tr, cell.br)));
    assert(backslash(pair(cell.bl, cell.tl)) == backslash(pair(cell.tl, cell.bl)));
    assert(backslash(pair(cell.br, cell.tr)) == backslash(pair(cell.tr, cell.br)));
    law_sides_mirror(tests, sides);
    law_ends_mirror(tests, ends);
}

/// An edge of several strokes is one of the edge characters behind the four straight ones,
/// and its strokes are there.
pub proof fn law_special_in_range(tests: StrokeTests)
    ensures
        first_special(tests, 0) matches Some(edge) ==> 4 <= edge <= 10 && tests.forms(edge),
        first_special(tests, 0) is None ==> forall|edge: int| !tests.forms(edge),
{
    reveal_with_fuel(first_special, 8);
}

/// Picks an edge character made of several strokes, if the strokes form one.
pub fn try_special(tests: &StrokeTests) -> (r: Option<usize>)
    ensures
        match r {
            Some(edge) => first_special(*tests, 0) == Some(edge as int),
            None => first_special(*tests, 0) is None,
        },
{
    reveal_with_fuel(first_special, 8);
    if tests.left_backslash && tests.right_slash {
        return Some(5);
    }
    if tests.left_slash && tests.right_backslash {
        return Some(4);
    }
    if tests.top_backslash && tests.bottom_slash {
        return Some(7);
    }
    if tests.top_slash && tests.bottom_backslash {
        return Some(6);
    }
    if tests.top_joins_horizontal && tests.bottom_vertical {
        return Some(8);
    }
    if tests.top_right_quiet && tests.left_joins_vertical && tests.bottom_right_horizontal {
        return Some(9);
    }
    if tests.top_left_backslash && tests.top_right_slash && tests.bottom_left_slash
        && tests.bottom_right_backslash {
        return Some(10);
    }
    None
}

/// What the analysis of a cell's measurements says.
#[derive(Clone, Copy, Debug, PartialEq, Eq, Structural)]
pub struct CellReading {
    /// The gradients of the whole cell agree too little for a single stroke.
    pub incoherent: bool,
    /// The gradients of the whole cell agree enough for a single stroke.
    pub coherent: bool,
    /// The gradients of the whole cell are strong enough for an edge.
    pub energetic: bool,
    /// The tests for edges of several strokes.
    pub strokes: StrokeTests,
    /// Which quarter of a half turn the direction falls in, each quarter centred
    /// on one of the first four edge characters; the fourth is the zeroth again.
    pub angle_bin: usize,
    /// The brightness on the scale of the fill characters.
    pub level: usize,
}

impl CellReading {
    /// The character index that the reading stands for.
    pub open spec fn index(self) -> int {
        if self.incoherent && first_special(self.strokes, 0) is Some {
            CHARS@.len() + first_special(self.strokes, 0).unwrap()
        } else if self.energetic && self.coherent {
            CHARS@.len() + self.angle_bin % 4
        } else {
            self.level as int
        }
    }
}

/// Chooses the character of a cell: an edge of several strokes where the gradients
/// disagree and form one, else a single stroke where they are strong and agree,
/// else a fill character by brightness.
pub fn choose_index(reading: &CellReading) -> (r: usize)
    ensures
        r == reading.index(),
{
    let special: Option<usize> = if reading.incoherent {
        try_special(&reading.strokes)
    } else {
        None
    };
    proof {
        reveal_with_fuel(first_special, 8);
    }
    if let Some(edge) = special {
        CHARS.len() + edge
    } else if reading.energetic && reading.coherent {
        CHARS.len() + reading.angle_bin % 4
    } else {
        reading.level
    }
}

/// The characters that readings stand for.
pub fn choose_indices(readings: &Vec<CellReading>) -> (r: Vec<usize>)
    ensures
        r@.len() == readings@.len(),
        forall|k: int| 0 <= k < r@.len() ==> #[trigger] r@[k] == readings@[k].index(),
{
    let mut indices: Vec<usize> = Vec::new();
    let mut k: usize = 0;
    while k < readings.len()
        invariant
            k <= readings@.len(),
            indices@.len() == k,
            forall|j: int| 0 <= j < k ==> #[trigger] indices@[j] == readings@[j].index(),
        decreases readings@.len() - k,
    {
        indices.push(choose_index(&readings[k]));
        k = k + 1;
    }
    indices
}

/// `value * coverage / 255`, rounded to the nearest integer.
pub open spec fn shade(coverage: u8, value: u8) -> int {
    (2 * (coverage * value) + 255) / 510
}

/// Scales a colour value by a coverage of 0 to 255.
fn shaded(coverage: u8, value: u8) -> (r: u8)
    ensures
        r == shade(coverage, value),
{
    assert(0 <= coverage * value <= 255 * 255) by (nonlinear_arith)
        requires
            coverage <= 255,
            value <= 255,
    ;
    ((2 * (coverage as u32 * value as u32) + 255) / 510) as u8
}

/// The coverage of the pixel with number `p` of the converted image, counted row by
/// row: that of the character of the pixel's cell, at the pixel's place in it.
pub open spec fn coverage(
    atlas: Seq<Seq<u8>>,
    indices: Seq<usize>,
    side: int,
    cell_w: int,
    cell_h: int,
    p: int,
) -> u8 {
    let x = p % side;
    let y = p / side;
    let cell = (y / cell_h) * (side / cell_w) + x / cell_w;
    atlas[indices[cell] as int][(y % cell_h) * cell_w + x % cell_w]
}

/// An atlas that has a cell for each of the characters that are used.
pub open spec fn atlas_serves(
    atlas: Seq<Seq<u8>>,
    indices: Seq<usize>,
    cell_w: u32,
    cell_h: u32,
) -> bool {
    forall|k: int|
        0 <= k < indices.len() ==> #[trigger] indices[k] < atlas.len() && atlas[indices[k] as int].len()
            >= cell_w * cell_h
}

/// A pixel of the covered part lies in a cell, at a place inside that cell.
proof fn lemma_pixel_cell(cols: int, rows: int, cell_w: int, cell_h: int, x: int, y: int)
    requires
        cell_w > 0,
        cell_h > 0,
        0 <= x < cols * cell_w,
        0 <= y < rows * cell_h,
    ensures
        0 <= x / cell_w < cols,
        0 <= y / cell_h < rows,
        0 <= (y / cell_h) * cols,
        (y / cell_h) * cols + x / cell_w < cols * rows,
        0 <= (y % cell_h) * cell_w,
        (y % cell_h) * cell_w + x % cell_w < cell_w * cell_h,
        (cols * cell_w) / cell_w == cols,
{
    let a = x / cell_w;
    let b = y / cell_h;
    assert(0 <= a < cols) by (nonlinear_arith)
        requires
            a == x / cell_w,
            cell_w > 0,
            0 <= x < cols * cell_w,
    ;
    assert(0 <= b < rows) by (nonlinear_arith)
        requires
            b == y / cell_h,
            cell_h > 0,
            0 <= y < rows * cell_h,
    ;
    lemma_index(cols, rows, a, b);
    lemma_index(cell_w, cell_h, x % cell_w, y % cell_h);
    assert((cols * cell_w) / cell_w == cols) by (nonlinear_arith)
        requires
            cell_w > 0,
    ;
}

/// Draws the characters of the cells over the colours of the source image.
///
/// The colour of an output byte is taken from the byte at the same place of the
/// source buffer, so the colours line up with the image where its width is a
/// whole number of cells.
pub fn render_indices(
    atlas: &CharAtlas,
    planes: &Planes,
    cell_w: u32,
    cell_h: u32,
    indices: &Vec<usize>,
) -> (r: RgbFrame)
    requires
        planes.wf(),
        frame_fits(planes.width, planes.height, cell_w, cell_h),
        indices@.len() == cell_count(planes.width, planes.height, cell_w, cell_h),
        atlas_serves(atlas_rows(*atlas), indices@, cell_w, cell_h),
    ensures
        r.wf(),
        r.width == snapped(planes.width, cell_w),
        r.height == snapped(planes.height, cell_h),
        forall|i: int|
            0 <= i < r.data@.len() ==> #[trigger] r.data@[i] == shade(
                coverage(
                    atlas_rows(*atlas),
                    indices@,
                    r.width as int,
                    cell_w as int,
                    cell_h as int,
                    i / 3,
                ),
                planes.rgb@[i],
            ),
{
    let cols: u32 = planes.width / cell_w;
    let rows: u32 = planes.height / cell_h;
    let ghost (cw, ch) = (cell_w as int, cell_h as int);
    let ghost rowsq = atlas_rows(*atlas);
    proof {
        assert(cols * cell_w <= planes.width) by (nonlinear_arith)
            requires
                cell_w > 0,
                cols == planes.width as int / cell_w as int,
        ;
        assert(rows * cell_h <= planes.height) by (nonlinear_arith)
            requires
                cell_h > 0,
                rows == planes.height as int / cell_h as int,
        ;
    }
    let width: u32 = cols * cell_w;
    let height: u32 = rows * cell_h;
    proof {
        assert(width * height * 3 <= planes.width * planes.height * 3) by (nonlinear_arith)
            requires
                0 <= width <= planes.width,
                0 <= height <= planes.height,
        ;
    }
    let mut data: Vec<u8> = Vec::new();
    let mut p: usize = 0;
    let mut y: u32 = 0;
    while y < height
        invariant
            cell_w > 0,
            cell_h > 0,
            cell_w * cell_h <= u32::MAX,
            cw == cell_w,
            ch == cell_h,
            rowsq == atlas_rows(*atlas),
            width == cols * cell_w,
            height == rows * cell_h,
            indices@.len() == cols * rows,
            atlas_serves(rowsq, indices@, cell_w, cell_h),
            width * height * 3 <= u32::MAX,
            width * height * 3 <= planes.rgb@.len(),
            y <= height,
            p == y * width,
            data@.len() == p * 3,
            forall|i: int|
                0 <= i < data@.len() ==> #[trigger] data@[i] == shade(
                    coverage(rowsq, indices@, width as int, cw, ch, i / 3),
                    planes.rgb@[i],
                ),
        decreases height - y,
    {
        proof {
            lemma_index(width as int, height as int, 0, y as int);
            assert((y + 1) * width == y * width + width) by (nonlinear_arith);
        }
        let mut x: u32 = 0;
        while x < width
            invariant
                cell_w > 0,
                cell_h > 0,
                cell_w * cell_h <= u32::MAX,
                cw == cell_w,
                ch == cell_h,
                rowsq == atlas_rows(*atlas),
                width == cols * cell_w,
                height == rows * cell_h,
                indices@.len() == cols * rows,
                atlas_serves(rowsq, indices@, cell_w, cell_h),
                width * height * 3 <= u32::MAX,
                width * height * 3 <= planes.rgb@.len(),
                y < height,
                0 <= y * width,
                y * width + width <= width * height,
                x <= width,
                p == y * width + x,
                data@.len() == p * 3,
                forall|i: int|
                    0 <= i < data@.len() ==> #[trigger] data@[i] == shade(
                        coverage(rowsq, indices@, width as int, cw, ch, i / 3),
                        planes.rgb@[i],
                    ),
            decreases width - x,
        {
            proof {
                lemma_pixel_cell(cols as int, rows as int, cw, ch, x as int, y as int);
                vstd::arithmetic::div_mod::lemma_fundamental_div_mod_converse(
                    p as int,
                    width as int,
                    y as int,
                    x as int,
                );
                assert(cols * rows <= width * height) by (nonlinear_arith)
                    requires
                        width == cols * cell_w,
                        height == rows * cell_h,
                        cell_w > 0,
                        cell_h > 0,
                ;
            }
            let cell: u32 = (y / cell_h) * cols + x / cell_w;
            let place: u32 = (y % cell_h) * cell_w + x % cell_w;
            let c: u8 = atlas.at(indices[cell as usize], place as usize);
            assert(c == coverage(rowsq, indices@, width as int, cw, ch, p as int));
            let i: usize = p * 3;
            data.push(shaded(c, planes.rgb[i]));
            data.push(shaded(c, planes.rgb[i + 1]));
            data.push(shaded(c, planes.rgb[i + 2]));
            p = p + 1;
            x = x + 1;
        }
        y = y + 1;
    }
    assert(height * width == width * height) by (nonlinear_arith);
    RgbFrame { width, height, data }
}

/// Whether character indices and a frame are those of an image whose cells have been read:
/// the index of each cell is that of its reading, and the frame shows the characters over
/// the image's colours.
pub open spec fn is_conversion(
    rows: Seq<Seq<u8>>,
    planes: Planes,
    cell_w: u32,
    cell_h: u32,
    readings: Seq<CellReading>,
    indices: Seq<usize>,
    frame: RgbFrame,
) -> bool {
    &&& indices.len() == readings.len()
    &&& forall|k: int| 0 <= k < indices.len() ==> #[trigger] indices[k] == readings[k].index()
    &&& frame.wf()
    &&& frame.width == snapped(planes.width, cell_w)
    &&& frame.height == snapped(planes.height, cell_h)
    &&& forall|i: int|
        0 <= i < frame.data@.len() ==> #[trigger] frame.data@[i] == shade(
            coverage(
                rows,
                indices,
                frame.width as int,
                cell_w as int,
                cell_h as int,
                i / 3,
            ),
            planes.rgb@[i],
        )
}

/// Converts an image whose cells have been read: chooses the character of each
/// cell and draws the characters over the image's colours. For debugging, the gradients of
/// the image are returned too.
pub fn process_frame(
    atlas: &CharAtlas,
    planes: &Planes,
    cell_w: u32,
    cell_h: u32,
    readings: &Vec<CellReading>,
    debug_output: bool,
) -> (r: (Vec<usize>, RgbFrame, Option<Gradients>))
    requires
        planes.wf(),
        frame_fits(planes.width, planes.height, cell_w, cell_h),
        readings@.len() == cell_count(planes.width, planes.height, cell_w, cell_h),
        forall|k: int|
            0 <= k < readings@.len() ==> (#[trigger] readings@[k]).index() < atlas_rows(*atlas).len()
                && atlas_rows(*atlas)[readings@[k].index()].len() >= cell_w * cell_h,
    ensures
        is_conversion(atlas_rows(*atlas), *planes, cell_w, cell_h, readings@, r.0@, r.1),
        r.2 is Some <==> debug_output,
        r.2 matches Some(grad) ==> grad.of(
            planes.luma@,
            planes.width as int,
            planes.height as int,
        ),
{
    let debug: Option<Gradients> = if debug_output {
        Some(gradients(planes.width, planes.height, &planes.luma))
    } else {
        None
    };
    let indices = choose_indices(readings);
    assert(atlas_serves(atlas_rows(*atlas), indices@, cell_w, cell_h)) by {
        assert forall|k: int| 0 <= k < indices@.len() implies #[trigger] indices@[k] < atlas_rows(
            *atlas,
        ).len() && atlas_rows(*atlas)[indices@[k] as int].len() >= cell_w * cell_h by {
            assert(readings@[k].index() < atlas_rows(*atlas).len());
        }
    }
    let frame = render_indices(atlas, planes, cell_w, cell_h, &indices);
    (indices, frame, debug)
}

/// A conversion is determined by its input alone: two conversions of one image, with
/// gradients for debugging or without, give the same indices and the same frame.
pub proof fn law_conversion_is_determined(
    rows: Seq<Seq<u8>>,
    planes: Planes,
    cell_w: u32,
    cell_h: u32,
    readings: Seq<CellReading>,
    indices_a: Seq<usize>,
    frame_a: RgbFrame,
    indices_b: Seq<usize>,
    frame_b: RgbFrame,
)
    requires
        is_conversion(rows, planes, cell_w, cell_h, readings, indices_a, frame_a),
        is_conversion(rows, planes, cell_w, cell_h, readings, indices_b, frame_b),
    ensures
        indices_a == indices_b,
        frame_a.width == frame_b.width,
        frame_a.height == frame_b.height,
        frame_a.data@ == frame_b.data@,
{
    assert(indices_a =~= indices_b) by {
        assert forall|k: int| 0 <= k < indices_a.len() implies indices_a[k] == indices_b[k] by {
            assert(indices_a[k] == readings[k].index());
            assert(indices_b[k] == readings[k].index());
        }
    }
    assert(frame_a.data@ =~= frame_b.data@);
}

/// The text of a grid of characters: each row of cells, followed by a newline.
pub open spec fn grid_text(cols: int, rows: int, indices: Seq<usize>) -> Seq<char> {
    Seq::new(
        (rows * (cols + 1)) as nat,
        |i: int|
            {
                let row = i / (cols + 1);
                let col = i % (cols + 1);
                if col == cols {
                    '\n'
                } else {
                    charset()[indices[row * cols + col] as int]
                }
            },
    )
}

/// Writes the characters of an image as text, one line for each row of cells.
pub fn char_indices_to_string(
    cell_w: usize,
    cell_h: usize,
    img_width: usize,
    img_height: usize,
    indices: &[usize],
) -> (r: String)
    requires
        cell_h > 0,
        img_height / cell_h > 0 ==> cell_w > 0 && (img_width / cell_w) * (img_height / cell_h)
            <= indices@.len(),
        img_height / cell_h > 0 ==> forall|k: int|
            0 <= k < (img_width / cell_w) * (img_height / cell_h) ==> #[trigger] indices@[k]
                < CHAR_COUNT,
    ensures
        img_height / cell_h == 0 ==> r@ == Seq::<char>::empty(),
        img_height / cell_h > 0 ==> r@ == grid_text(
            (img_width / cell_w) as int,
            (img_height / cell_h) as int,
            indices@,
        ),
{
    let rows: usize = img_height / cell_h;
    if rows == 0 {
        return String::new();
    }
    let cols: usize = img_width / cell_w;
    let ghost text = grid_text(cols as int, rows as int, indices@);
    let ghost line = cols + 1;
    let len: usize = indices.len();
    let mut chars = String::new();
    let mut y: usize = 0;
    while y < rows
        invariant
            len == indices@.len(),
            cols * rows <= len,
            forall|k: int| 0 <= k < cols * rows ==> #[trigger] indices@[k] < CHAR_COUNT,
            text == grid_text(cols as int, rows as int, indices@),
            line == cols + 1,
            y <= rows,
            0 <= y * line <= rows * line,
            chars@ == text.take(y * line),
        decreases rows - y,
    {
        proof {
            lemma_index(cols as int, rows as int, 0, y as int);
            assert(y * line + line <= rows * line && (y + 1) * line == y * line + line)
                by (nonlinear_arith)
                requires
                    0 <= y < rows,
                    0 <= line,
            ;
        }
        let mut x: usize = 0;
        while x < cols
            invariant
                len == indices@.len(),
                cols * rows <= len,
                forall|k: int| 0 <= k < cols * rows ==> #[trigger] indices@[k] < CHAR_COUNT,
                text == grid_text(cols as int, rows as int, indices@),
                line == cols + 1,
                y < rows,
                0 <= y * cols,
                y * cols + cols <= cols * rows,
                0 <= y * line,
                y * line + line <= rows * line,
                x <= cols,
                chars@ == text.take(y * line + x),
            decreases cols - x,
        {
            let c: char = char_at(indices[y * cols + x]);
            proof {
                let at = y * line + x;
                vstd::arithmetic::div_mod::lemma_fundamental_div_mod_converse(
                    at,
                    line,
                    y as int,
                    x as int,
                );
                assert(text[at] == c);
                assert(text.take(at + 1) =~= text.take(at).push(c));
            }
            chars.push(c);
            x = x + 1;
        }
        proof {
            let at = y * line + cols;
            vstd::arithmetic::div_mod::lemma_fundamental_div_mod_converse(
                at,
                line,
                y as int,
                cols as int,
            );
            assert(text[at] == '\n');
            assert(text.take(at + 1) =~= text.take(at).push('\n'));
        }
        chars.push('\n');
        y = y + 1;
    }
    assert(text.take(rows * line) =~= text);
    chars
}

/// A reading whose brightness is on the scale of the fill characters stands for one of
/// the characters: a fill character or an edge character.
pub proof fn law_reading_stands_for_character(reading: CellReading)
    requires
        reading.level < CHARS@.len(),
    ensures
        0 <= reading.index() < CHAR_COUNT,
        charset().len() == CHAR_COUNT,
{
    law_charset_distinct(0, 0);
    reveal_with_fuel(first_special, 8);
}

/// An atlas drawn from a font has a whole cell for each reading whose brightness is on
/// the scale of the fill characters.
pub proof fn law_atlas_serves_readings(
    font: Seq<u8>,
    char_height: u32,
    rows: Seq<Seq<u8>>,
    cell_w: u32,
    cell_h: u32,
    reading: CellReading,
)
    requires
        is_atlas(font, char_height, rows, cell_w, cell_h),
        reading.level < CHARS@.len(),
    ensures
        0 <= reading.index() < rows.len(),
        rows[reading.index()].len() == cell_w * cell_h,
{
    law_reading_stands_for_character(reading);
    let (m, glyphs) = choose|m: SizeMetrics, glyphs: Seq<Glyph>|
        #[trigger] drawn_from(font, char_height, m, glyphs, rows) && cell_w == m.cell_w() && cell_h
            == m.cell_h();
    assert(rows[reading.index()] == glyphs[reading.index()].atlas_row(m));
    assert(0 <= cell_w * cell_h) by (nonlinear_arith);
}

/// A colour never gets brighter by being shaded: it is kept where a character covers the
/// pixel, and goes to black where none does.
pub proof fn law_shade_stays_below(coverage: u8, value: u8)
    ensures
        0 <= shade(coverage, value) <= value,
        shade(255, value) == value,
        shade(0, value) == 0,
{
    assert(0 <= coverage * value <= 255 * value) by (nonlinear_arith)
        requires
            0 <= coverage <= 255,
            0 <= value,
    ;
}

/// More coverage never makes a colour darker, nor does a brighter colour.
pub proof fn law_shade_grows(a: u8, b: u8, v: u8, w: u8)
    requires
        a <= b,
        v <= w,
    ensures
        shade(a, v) <= shade(b, w),
{
    assert(a * v <= b * w) by (nonlinear_arith)
        requires
            0 <= a <= b,
            0 <= v <= w,
    ;
}

/// The text of a grid has the character of each cell at its place in its line, and a
/// newline behind each line.
pub proof fn law_grid_text_places(cols: int, rows: int, indices: Seq<usize>, row: int, col: int)
    requires
        0 <= col <= cols,
        0 <= row < rows,
    ensures
        grid_text(cols, rows, indices).len() == rows * (cols + 1),
        0 <= row * (cols + 1) + col < rows * (cols + 1),
        grid_text(cols, rows, indices)[row * (cols + 1) + col] == if col == cols {
            '\n'
        } else {
            charset()[indices[row * cols + col] as int]
        },
{
    let line = cols + 1;
    let at = row * line + col;
    assert(0 <= row * line && row * line + line <= rows * line) by (nonlinear_arith)
        requires
            0 <= row < rows,
            0 <= line,
    ;
    vstd::arithmetic::div_mod::lemma_fundamental_div_mod_converse(at, line, row, col);
}

/// The text of a grid tells which characters were chosen: grids of the same size with the
/// same text hold the same indices.
pub proof fn law_grid_text_tells_indices(cols: int, rows: int, a: Seq<usize>, b: Seq<usize>, k: int)
    requires
        0 <= cols,
        0 <= rows,
        0 <= k < cols * rows,
        forall|i: int| 0 <= i < cols * rows ==> #[trigger] a[i] < CHAR_COUNT,
        forall|i: int| 0 <= i < cols * rows ==> #[trigger] b[i] < CHAR_COUNT,
        grid_text(cols, rows, a) == grid_text(cols, rows, b),
    ensures
        a[k] == b[k],
{
    assert(cols > 0) by (nonlinear_arith)
        requires
            0 <= cols,
            0 <= k < cols * rows,
    ;
    let (row, col) = (k / cols, k % cols);
    vstd::arithmetic::div_mod::lemma_fundamental_div_mod(k, cols);
    assert(cols * row == row * cols) by (nonlinear_arith);
    assert(0 <= row < rows) by (nonlinear_arith)
        requires
            0 < cols,
            k == cols * row + col,
            0 <= col < cols,
            0 <= k < cols * rows,
    ;
    law_grid_text_places(cols, rows, a, row, col);
    law_grid_text_places(cols, rows, b, row, col);
    law_charset_distinct(a[k] as int, b[k] as int);
}

} // verus!
