//! How characters are drawn over the colours of an image.
use vstd::prelude::*;
use crate::algorithm::{
    choose_index, coverage, lemma_index, process_frame, render_indices, shade, CellReading,
};
use crate::font_renderer::{atlas_rows, CharAtlas};
use crate::frame::{gradients, sobel_x, sobel_y, Gradients, Planes, RgbFrame};

verus! {

/// A colour is shaded to the nearest integer of its share: the value times the coverage,
/// of 255.
proof fn lemma_shade_rounds(coverage: u8, value: u8)
    ensures
        -255 <= 2 * (255 * shade(coverage, value) - coverage * value) <= 255,
{
}

/// Where the pixel `(dx, dy)` of the cell in column `col` and row `row` stands in a frame of
/// `cols` cells in a row.
proof fn lemma_place(
    cols: int,
    rows: int,
    cell_w: int,
    cell_h: int,
    col: int,
    row: int,
    dx: int,
    dy: int,
    c: int,
)
    requires
        0 <= col < cols,
        0 <= row < rows,
        0 <= dx < cell_w,
        0 <= dy < cell_h,
        0 <= c < 3,
    ensures
        ({
            let w = cols * cell_w;
            let (x, y) = (col * cell_w + dx, row * cell_h + dy);
            let i = (y * w + x) * 3 + c;
            &&& 0 <= x < w
            &&& 0 <= y < rows * cell_h
            &&& 0 <= i < w * (rows * cell_h) * 3
            &&& (i / 3) % w == x
            &&& (i / 3) / w == y
            &&& x / cell_w == col
            &&& x % cell_w == dx
            &&& y / cell_h == row
            &&& y % cell_h == dy
            &&& w / cell_w == cols
        }),
{
    let w = cols * cell_w;
    let h = rows * cell_h;
    let (x, y) = (col * cell_w + dx, row * cell_h + dy);
    assert(0 <= col * cell_w && col * cell_w + cell_w <= cols * cell_w) by (nonlinear_arith)
        requires
            0 <= col < cols,
            0 < cell_w,
    ;
    assert(0 <= row * cell_h && row * cell_h + cell_h <= rows * cell_h) by (nonlinear_arith)
        requires
            0 <= row < rows,
            0 < cell_h,
    ;
    lemma_index(w, h, x, y);
    vstd::arithmetic::div_mod::lemma_fundamental_div_mod_converse(y * w + x, w, y, x);
    vstd::arithmetic::div_mod::lemma_fundamental_div_mod_converse(x, cell_w, col, dx);
    vstd::arithmetic::div_mod::lemma_fundamental_div_mod_converse(y, cell_h, row, dy);
    vstd::arithmetic::div_mod::lemma_fundamental_div_mod_converse(w, cell_w, cols, 0);
}

/// Each pixel of a cell shows its own pixel of the cell's character: the one `dx` to the
/// right and `dy` below the cell's corner is the source colour scaled by the entry at row
/// `dy` and column `dx` of the character's cell in the atlas, rounded to the nearest
/// integer. The frame is what whole cells cover of the image.
pub proof fn law_pixels_show_characters(
    atlas: CharAtlas,
    planes: Planes,
    cell_w: u32,
    cell_h: u32,
    readings: Vec<CellReading>,
    debug_output: bool,
    r: (Vec<usize>, RgbFrame, Option<Gradients>),
    col: int,
    row: int,
    dx: int,
    dy: int,
    c: int,
)
    requires
        cell_w > 0,
        cell_h > 0,
        process_frame.ensures((&atlas, &planes, cell_w, cell_h, &readings, debug_output), r),
        0 <= col < planes.width / cell_w,
        0 <= row < planes.height / cell_h,
        0 <= dx < cell_w,
        0 <= dy < cell_h,
        0 <= c < 3,
    ensures
        ({
            let cols = planes.width / cell_w;
            let w = cols * cell_w;
            let i = ((row * cell_h + dy) * w + (col * cell_w + dx)) * 3 + c;
            let entry = atlas_rows(atlas)[r.0@[row * cols + col] as int][dy * cell_w + dx];
            &&& r.1.width == w
            &&& r.1.height == (planes.height / cell_h) * cell_h
            &&& r.1.data@.len() == r.1.width * r.1.height * 3
            &&& 0 <= i < r.1.data@.len()
            &&& -255 <= 2 * (255 * r.1.data@[i] - entry * planes.rgb@[i]) <= 255
        }),
{
    let cols = (planes.width / cell_w) as int;
    let rows = (planes.height / cell_h) as int;
    let (cw, ch) = (cell_w as int, cell_h as int);
    lemma_place(cols, rows, cw, ch, col, row, dx, dy, c);
    let w = cols * cw;
    let i = ((row * ch + dy) * w + (col * cw + dx)) * 3 + c;
    let entry = atlas_rows(atlas)[r.0@[row * cols + col] as int][dy * cw + dx];
    assert(coverage(atlas_rows(atlas), r.0@, w, cw, ch, i / 3) == entry);
    assert(r.1.data@[i] == shade(entry, planes.rgb@[i]));
    lemma_shade_rounds(entry, planes.rgb@[i]);
}

/// The same of drawing characters that have been chosen already.
pub proof fn law_pixels_show_chosen_characters(
    atlas: CharAtlas,
    planes: Planes,
    cell_w: u32,
    cell_h: u32,
    indices: Vec<usize>,
    r: RgbFrame,
    col: int,
    row: int,
    dx: int,
    dy: int,
    c: int,
)
    requires
        cell_w > 0,
        cell_h > 0,
        render_indices.ensures((&atlas, &planes, cell_w, cell_h, &indices), r),
        0 <= col < planes.width / cell_w,
        0 <= row < planes.height / cell_h,
        0 <= dx < cell_w,
        0 <= dy < cell_h,
        0 <= c < 3,
    ensures
        ({
            let cols = planes.width / cell_w;
            let w = cols * cell_w;
            let i = ((row * cell_h + dy) * w + (col * cell_w + dx)) * 3 + c;
            let entry = atlas_rows(atlas)[indices@[row * cols + col] as int][dy * cell_w + dx];
            &&& r.width == w
            &&& r.height == (planes.height / cell_h) * cell_h
            &&& r.data@.len() == r.width * r.height * 3
            &&& 0 <= i < r.data@.len()
            &&& -255 <= 2 * (255 * r.data@[i] - entry * planes.rgb@[i]) <= 255
        }),
{
    let cols = (planes.width / cell_w) as int;
    let rows = (planes.height / cell_h) as int;
    let (cw, ch) = (cell_w as int, cell_h as int);
    lemma_place(cols, rows, cw, ch, col, row, dx, dy, c);
    let w = cols * cw;
    let i = ((row * ch + dy) * w + (col * cw + dx)) * 3 + c;
    let entry = atlas_rows(atlas)[indices@[row * cols + col] as int][dy * cw + dx];
    assert(coverage(atlas_rows(atlas), indices@, w, cw, ch, i / 3) == entry);
    assert(r.data@[i] == shade(entry, planes.rgb@[i]));
    lemma_shade_rounds(entry, planes.rgb@[i]);
}

/// Where whole cells cover the full width of the image, a pixel shows the image's colour at
/// its own place: unchanged where the character covers it fully, black where the character
/// leaves it free.
pub proof fn law_pixels_keep_their_place(
    atlas: CharAtlas,
    planes: Planes,
    cell_w: u32,
    cell_h: u32,
    readings: Vec<CellReading>,
    debug_output: bool,
    r: (Vec<usize>, RgbFrame, Option<Gradients>),
    col: int,
    row: int,
    dx: int,
    dy: int,
    c: int,
)
    requires
        cell_w > 0,
        cell_h > 0,
        planes.width % cell_w == 0,
        process_frame.ensures((&atlas, &planes, cell_w, cell_h, &readings, debug_output), r),
        0 <= col < planes.width / cell_w,
        0 <= row < planes.height / cell_h,
        0 <= dx < cell_w,
        0 <= dy < cell_h,
        0 <= c < 3,
    ensures
        ({
            let (x, y) = (col * cell_w + dx, row * cell_h + dy);
            let i = (y * planes.width + x) * 3 + c;
            let index = r.0@[row * (planes.width / cell_w) + col];
            let entry = atlas_rows(atlas)[index as int][dy * cell_w + dx];
            &&& r.1.width == planes.width
            &&& entry == 255 ==> r.1.data@[i] == planes.rgb@[i]
            &&& entry == 0 ==> r.1.data@[i] == 0
            &&& r.1.data@[i] <= planes.rgb@[i]
        }),
{
    law_pixels_show_characters(
        atlas,
        planes,
        cell_w,
        cell_h,
        readings,
        debug_output,
        r,
        col,
        row,
        dx,
        dy,
        c,
    );
    let (x, y) = (col * cell_w + dx, row * cell_h + dy);
    let i = (y * planes.width + x) * 3 + c;
    let index = r.0@[row * (planes.width / cell_w) + col];
    let entry = atlas_rows(atlas)[index as int][dy * cell_w + dx];
    let value = planes.rgb@[i];
    vstd::arithmetic::div_mod::lemma_fundamental_div_mod(
        planes.width as int,
        cell_w as int,
    );
    vstd::arithmetic::mul::lemma_mul_is_commutative(
        cell_w as int,
        (planes.width / cell_w) as int,
    );
    assert(0 <= entry * value <= 255 * value) by (nonlinear_arith)
        requires
            0 <= entry <= 255,
            0 <= value,
    ;
    assert(entry == 255 ==> entry * value == 255 * value) by (nonlinear_arith);
    assert(entry == 0 ==> entry * value == 0) by (nonlinear_arith);
}

/// The characters drawn are those that are chosen for each cell, and gradients come along
/// exactly if they are asked for: those of the image.
pub proof fn law_converted_cells_are_the_chosen(
    atlas: CharAtlas,
    planes: Planes,
    cell_w: u32,
    cell_h: u32,
    readings: Vec<CellReading>,
    debug_output: bool,
    r: (Vec<usize>, RgbFrame, Option<Gradients>),
    k: int,
    chosen: usize,
    g: Gradients,
)
    requires
        process_frame.ensures((&atlas, &planes, cell_w, cell_h, &readings, debug_output), r),
        0 <= k < readings@.len(),
        choose_index.ensures((&readings@[k],), chosen),
        gradients.ensures((planes.width, planes.height, &planes.luma), g),
    ensures
        r.0@.len() == readings@.len(),
        r.0@[k] == chosen,
        r.2 is Some <==> debug_output,
        r.2 matches Some(debug) ==> debug.gx@ == g.gx@ && debug.gy@ == g.gy@,
{
    if let Some(debug) = r.2 {
        let (w, h) = (planes.width as int, planes.height as int);
        assert forall|i: int| 0 <= i < w * h implies debug.gx@[i] == g.gx@[i] && debug.gy@[i]
            == g.gy@[i] by {
            assert(w > 0) by (nonlinear_arith)
                requires
                    0 <= i < w * h,
                    0 <= w,
            ;
            let (x, y) = (i % w, i / w);
            vstd::arithmetic::div_mod::lemma_fundamental_div_mod(i, w);
            assert(w * y == y * w) by (nonlinear_arith);
            assert(0 <= y < h) by (nonlinear_arith)
                requires
                    0 < w,
                    i == w * y + x,
                    0 <= x < w,
                    0 <= i < w * h,
            ;
            assert(debug.gx@[y * w + x] == sobel_x(planes.luma@, w, h, x, y));
            assert(debug.gy@[y * w + x] == sobel_y(planes.luma@, w, h, x, y));
        }
        assert(debug.gx@ =~= g.gx@);
        assert(debug.gy@ =~= g.gy@);
    }
}

/// What is drawn is as large as the whole cells of the image, also where there are none,
/// whether the characters are chosen on the way or before.
pub proof fn law_drawn_size(
    atlas: CharAtlas,
    planes: Planes,
    cell_w: u32,
    cell_h: u32,
    readings: Vec<CellReading>,
    debug_output: bool,
    indices: Vec<usize>,
    r: (Vec<usize>, RgbFrame, Option<Gradients>),
    s: RgbFrame,
)
    requires
        process_frame.ensures((&atlas, &planes, cell_w, cell_h, &readings, debug_output), r),
        render_indices.ensures((&atlas, &planes, cell_w, cell_h, &indices), s),
    ensures
        r.0@.len() == readings@.len(),
        r.1.width == (planes.width / cell_w) * cell_w,
        r.1.height == (planes.height / cell_h) * cell_h,
        r.1.data@.len() == r.1.width * r.1.height * 3,
        s.width == r.1.width,
        s.height == r.1.height,
        s.data@.len() == r.1.data@.len(),
{
}

} // verus!
