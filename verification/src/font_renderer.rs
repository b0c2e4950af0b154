//! Rendering the characters into an atlas of cell-sized bitmaps.
use vstd::prelude::*;
use crate::charset::{char_at, charset, CHAR_COUNT};
use crate::text::owned;

verus! {

/// A table of bytes with one row for each character.
#[verifier::external_body]
pub struct CharAtlas {
    grid: ndarray::Array2<u8>,
}

/// The rows of an atlas.
pub uninterp spec fn atlas_rows(atlas: CharAtlas) -> Seq<Seq<u8>>;

/// `ndarray::Array2::zeros`: a table of the given shape that holds zeros.
#[verifier::external_body]
fn zeros(rows: usize, columns: usize) -> (r: CharAtlas)
    requires
        rows <= isize::MAX,
        columns <= isize::MAX,
        rows * columns <= isize::MAX,
    ensures
        atlas_rows(r) == Seq::new(rows as nat, |i: int| Seq::new(columns as nat, |j: int| 0u8)),
{
    CharAtlas { grid: ndarray::Array2::zeros((rows, columns)) }
}

/// `ndarray::ArrayBase::index_mut` at a row and a column: replaces one byte.
#[verifier::external_body]
fn set(atlas: &mut CharAtlas, row: usize, column: usize, value: u8)
    requires
        row < atlas_rows(*old(atlas)).len(),
        column < atlas_rows(*old(atlas))[row as int].len(),
    ensures
        atlas_rows(*final(atlas)) == atlas_rows(*old(atlas)).update(
            row as int,
            atlas_rows(*old(atlas))[row as int].update(column as int, value),
        ),
{
    atlas.grid[[row, column]] = value;
}

/// `ndarray::ArrayBase::row`, indexed: one byte of a row.
#[verifier::external_body]
fn get(atlas: &CharAtlas, row: usize, column: usize) -> (r: u8)
    requires
        row < atlas_rows(*atlas).len(),
        column < atlas_rows(*atlas)[row as int].len(),
    ensures
        r == atlas_rows(*atlas)[row as int][column as int],
{
    atlas.grid.row(row)[column]
}

impl CharAtlas {
    /// One byte of the atlas.
    pub fn at(&self, row: usize, column: usize) -> (r: u8)
        requires
            row < atlas_rows(*self).len(),
            column < atlas_rows(*self)[row as int].len(),
        ensures
            r == atlas_rows(*self)[row as int][column as int],
    {
        get(self, row, column)
    }
}

/// The size of a scaled font, in 64ths of a pixel.
#[derive(Clone, Copy, Debug, PartialEq, Eq, Structural)]
pub struct SizeMetrics {
    pub ascender: i64,
    pub height: i64,
    pub max_advance: i64,
}

/// A rendered character.
#[derive(Debug)]
pub struct Glyph {
    /// Coverage values, row by row.
    pub buffer: Vec<u8>,
    pub rows: i32,
    pub width: i32,
    /// Columns from the pen position to the bitmap.
    pub left: i32,
    /// Rows from the baseline up to the top of the bitmap.
    pub top: i32,
    /// Horizontal advance, in 64ths of a pixel.
    pub advance: i64,
}

/// `v` reduced to the range of `u32`, as a cast does.
pub open spec fn wrap_u32(v: int) -> int {
    v % 0x1_0000_0000
}

/// `v` reduced to the range of `i32`, as a cast does.
pub open spec fn wrap_i32(v: int) -> int {
    let low = v % 0x1_0000_0000;
    if low >= 0x8000_0000 {
        low - 0x1_0000_0000
    } else {
        low
    }
}

/// The whole pixels of a length in 64ths, as an unsigned number.
fn pixels_u32(v: i64) -> (r: u32)
    ensures
        r == wrap_u32(v as int / 64),
{
    let whole: i64 = v >> 6;
    assert(whole == v as int / 64) by {
        assert(v >> 6 == v / 64) by (bit_vector);
    }
    let low: i64 = whole & 0xffff_ffff;
    assert(0 <= whole & 0xffff_ffff <= 0xffff_ffff) by (bit_vector);
    assert(whole & 0xffff_ffff == whole % 0x1_0000_0000) by (bit_vector);
    low as u32
}

/// The whole pixels of a length in 64ths, as a signed number.
fn pixels_i32(v: i64) -> (r: i32)
    ensures
        r == wrap_i32(v as int / 64),
{
    let low: u32 = pixels_u32(v);
    if low >= 0x8000_0000 {
        (low as i64 - 0x1_0000_0000) as i32
    } else {
        low as i32
    }
}

impl SizeMetrics {
    /// Width of a cell in pixels.
    pub open spec fn cell_w(self) -> int {
        wrap_u32(self.max_advance as int / 64)
    }

    /// Height of a cell in pixels.
    pub open spec fn cell_h(self) -> int {
        wrap_u32(self.height as int / 64)
    }

    /// Rows from the top of a cell to the baseline.
    pub open spec fn ascent(self) -> int {
        wrap_i32(self.ascender as int / 64)
    }

    /// Both sides of a cell, and its area, are small enough to compute with.
    pub open spec fn fits(self) -> bool {
        &&& self.cell_w() <= i32::MAX
        &&& self.cell_h() <= i32::MAX
        &&& self.cell_w() * self.cell_h() <= u32::MAX
        &&& CHAR_COUNT * (self.cell_w() * self.cell_h()) <= isize::MAX
    }

    /// Width and height of a cell in pixels.
    pub fn cell_size(&self) -> (r: (u32, u32))
        ensures
            r.0 == self.cell_w(),
            r.1 == self.cell_h(),
    {
        (pixels_u32(self.max_advance), pixels_u32(self.height))
    }
}

/// Half of `v`, rounded toward zero.
pub open spec fn half(v: int) -> int {
    if v >= 0 {
        v / 2
    } else {
        -(-v / 2)
    }
}

impl Glyph {
    /// The cell row that the glyph's first row falls on.
    pub open spec fn y_offset(self, m: SizeMetrics) -> int {
        if m.ascent() > self.top {
            m.ascent() - self.top
        } else {
            0
        }
    }

    /// The cell column that the glyph's first column falls on: the glyph is
    /// centred by its advance.
    pub open spec fn x_offset(self, m: SizeMetrics) -> int {
        self.left + half(m.cell_w() - wrap_i32(self.advance as int / 64))
    }

    /// Whether the cell pixel `(tx, ty)` shows a pixel of the glyph.
    pub open spec fn shows(self, m: SizeMetrics, tx: int, ty: int) -> bool {
        &&& 0 <= tx - self.x_offset(m) < self.width
        &&& 0 <= ty - self.y_offset(m) < self.rows
    }

    /// The place in the glyph's buffer of what the cell pixel `(tx, ty)` shows.
    pub open spec fn source(self, m: SizeMetrics, tx: int, ty: int) -> int {
        (ty - self.y_offset(m)) * self.width + (tx - self.x_offset(m))
    }

    /// The buffer holds every pixel of the glyph that falls inside the cell.
    pub open spec fn covers(self, m: SizeMetrics) -> bool {
        forall|tx: int, ty: int|
            0 <= tx < m.cell_w() && 0 <= ty < m.cell_h() && #[trigger] self.shows(m, tx, ty)
                ==> self.source(m, tx, ty) < self.buffer@.len()
    }

    /// The value of the cell pixel `(tx, ty)`: the glyph's coverage there, or 0
    /// where the glyph does not reach.
    pub open spec fn value(self, m: SizeMetrics, tx: int, ty: int) -> u8 {
        if self.shows(m, tx, ty) {
            self.buffer@[self.source(m, tx, ty)]
        } else {
            0
        }
    }

    /// The atlas row of the glyph: its cell, row by row.
    pub open spec fn atlas_row(self, m: SizeMetrics) -> Seq<u8> {
        Seq::new(
            (m.cell_w() * m.cell_h()) as nat,
            |p: int| self.value(m, p % m.cell_w(), p / m.cell_w()),
        )
    }
}

/// The offsets at which a glyph is placed in its cell, `(x, y)`.
fn offsets(m: &SizeMetrics, glyph: &Glyph) -> (r: (i64, i64))
    requires
        m.fits(),
    ensures
        r.0 == glyph.x_offset(*m),
        r.1 == glyph.y_offset(*m),
        -0x2_0000_0000 <= r.0 <= 0x2_0000_0000,
        0 <= r.1 <= 0x1_0000_0000,
{
    let ascent: i64 = pixels_i32(m.ascender) as i64;
    let cell_w: i64 = pixels_u32(m.max_advance) as i64;
    let advance: i64 = pixels_i32(glyph.advance) as i64;
    let y_offset: i64 = if ascent > glyph.top as i64 {
        ascent - glyph.top as i64
    } else {
        0
    };
    let slack: i64 = cell_w - advance;
    let centre: i64 = if slack >= 0 {
        slack / 2
    } else {
        -((-slack) / 2)
    };
    (glyph.left as i64 + centre, y_offset)
}

/// The place of `(x, y)` in a buffer of rows of `width` values is not negative.
proof fn lemma_source(width: int, rows: int, x: int, y: int)
    requires
        0 <= x < width <= i32::MAX,
        0 <= y < rows <= i32::MAX,
    ensures
        0 <= y * width <= 0x3fff_ffff_ffff_ffff,
{
    assert(0 <= y * width <= 0x3fff_ffff_ffff_ffff) by (nonlinear_arith)
        requires
            0 <= width <= 0x7fff_ffff,
            0 <= y < 0x7fff_ffff,
    ;
}

/// The place of a pixel splits back into its row and column.
pub(crate) proof fn lemma_place(width: int, x: int, y: int)
    requires
        0 <= x < width,
        0 <= y,
    ensures
        (y * width + x) % width == x,
        (y * width + x) / width == y,
{
    vstd::arithmetic::div_mod::lemma_fundamental_div_mod_converse(y * width + x, width, y, x);
}

/// Whether the glyph's buffer holds every pixel that falls inside the cell.
pub fn covers(m: &SizeMetrics, glyph: &Glyph) -> (r: bool)
    requires
        m.fits(),
    ensures
        r == glyph.covers(*m),
{
    let (cell_w, cell_h) = m.cell_size();
    let (x_offset, y_offset) = offsets(m, glyph);
    let mut ty: u32 = 0;
    while ty < cell_h
        invariant
            m.fits(),
            cell_w == m.cell_w(),
            cell_h == m.cell_h(),
            x_offset == glyph.x_offset(*m),
            y_offset == glyph.y_offset(*m),
            -0x2_0000_0000 <= x_offset <= 0x2_0000_0000,
            0 <= y_offset <= 0x1_0000_0000,
            ty <= cell_h,
            forall|u: int, v: int|
                0 <= u < cell_w && 0 <= v < ty && #[trigger] glyph.shows(*m, u, v)
                    ==> glyph.source(*m, u, v) < glyph.buffer@.len(),
        decreases cell_h - ty,
    {
        let mut tx: u32 = 0;
        while tx < cell_w
            invariant
                m.fits(),
                cell_w == m.cell_w(),
                cell_h == m.cell_h(),
                x_offset == glyph.x_offset(*m),
                y_offset == glyph.y_offset(*m),
                -0x2_0000_0000 <= x_offset <= 0x2_0000_0000,
                0 <= y_offset <= 0x1_0000_0000,
                ty < cell_h,
                tx <= cell_w,
                forall|u: int, v: int|
                    0 <= u < cell_w && 0 <= v < ty && #[trigger] glyph.shows(*m, u, v)
                        ==> glyph.source(*m, u, v) < glyph.buffer@.len(),
                forall|u: int|
                    0 <= u < tx && #[trigger] glyph.shows(*m, u, ty as int) ==> glyph.source(
                        *m,
                        u,
                        ty as int,
                    ) < glyph.buffer@.len(),
            decreases cell_w - tx,
        {
            let x: i64 = tx as i64 - x_offset;
            let y: i64 = ty as i64 - y_offset;
            if 0 <= x && x < glyph.width as i64 && 0 <= y && y < glyph.rows as i64 {
                proof {
                    lemma_source(glyph.width as int, glyph.rows as int, x as int, y as int);
                    assert(glyph.shows(*m, tx as int, ty as int));
                }
                if y as u64 * glyph.width as u64 + x as u64 >= glyph.buffer.len() as u64 {
                    return false;
                }
            }
            tx = tx + 1;
        }
        ty = ty + 1;
    }
    true
}

/// Draws a glyph into its row of the atlas, pixel by pixel of the cell.
pub fn place_glyph(atlas: &mut CharAtlas, index: usize, m: &SizeMetrics, glyph: &Glyph)
    requires
        m.fits(),
        glyph.covers(*m),
        index < atlas_rows(*old(atlas)).len(),
        atlas_rows(*old(atlas))[index as int].len() == m.cell_w() * m.cell_h(),
    ensures
        atlas_rows(*final(atlas)) == atlas_rows(*old(atlas)).update(
            index as int,
            glyph.atlas_row(*m),
        ),
{
    let (cell_w, cell_h) = m.cell_size();
    let (x_offset, y_offset) = offsets(m, glyph);
    let ghost before = atlas_rows(*atlas);
    let ghost drawn = glyph.atlas_row(*m);
    let mut p: usize = 0;
    let mut ty: u32 = 0;
    while ty < cell_h
        invariant
            m.fits(),
            glyph.covers(*m),
            cell_w == m.cell_w(),
            cell_h == m.cell_h(),
            x_offset == glyph.x_offset(*m),
            y_offset == glyph.y_offset(*m),
            -0x2_0000_0000 <= x_offset <= 0x2_0000_0000,
            0 <= y_offset <= 0x1_0000_0000,
            ty <= cell_h,
            p == ty * cell_w,
            index < before.len(),
            drawn == glyph.atlas_row(*m),
            atlas_rows(*atlas).len() == before.len(),
            forall|i: int| 0 <= i < before.len() && i != index ==> atlas_rows(*atlas)[i] == before[i],
            atlas_rows(*atlas)[index as int].len() == cell_w * cell_h,
            forall|i: int| 0 <= i < p ==> atlas_rows(*atlas)[index as int][i] == drawn[i],
        decreases cell_h - ty,
    {
        proof {
            assert(0 <= ty * cell_w && ty * cell_w + cell_w <= cell_w * cell_h && (ty + 1) * cell_w
                == ty * cell_w + cell_w) by (nonlinear_arith)
                requires
                    0 <= ty < cell_h,
            ;
        }
        let mut tx: u32 = 0;
        while tx < cell_w
            invariant
                m.fits(),
                glyph.covers(*m),
                cell_w == m.cell_w(),
                cell_h == m.cell_h(),
                x_offset == glyph.x_offset(*m),
                y_offset == glyph.y_offset(*m),
                -0x2_0000_0000 <= x_offset <= 0x2_0000_0000,
                0 <= y_offset <= 0x1_0000_0000,
                ty < cell_h,
                tx <= cell_w,
                p == ty * cell_w + tx,
                0 <= ty * cell_w,
                ty * cell_w + cell_w <= cell_w * cell_h,
                index < before.len(),
                drawn == glyph.atlas_row(*m),
                atlas_rows(*atlas).len() == before.len(),
                forall|i: int|
                    0 <= i < before.len() && i != index ==> atlas_rows(*atlas)[i] == before[i],
                atlas_rows(*atlas)[index as int].len() == cell_w * cell_h,
                forall|i: int| 0 <= i < p ==> atlas_rows(*atlas)[index as int][i] == drawn[i],
            decreases cell_w - tx,
        {
            proof {
                lemma_place(cell_w as int, tx as int, ty as int);
            }
            let x: i64 = tx as i64 - x_offset;
            let y: i64 = ty as i64 - y_offset;
            let mut value: u8 = 0;
            if 0 <= x && x < glyph.width as i64 && 0 <= y && y < glyph.rows as i64 {
                proof {
                    lemma_source(glyph.width as int, glyph.rows as int, x as int, y as int);
                    assert(glyph.shows(*m, tx as int, ty as int));
                }
                let j: u64 = y as u64 * glyph.width as u64 + x as u64;
                assert(j == glyph.source(*m, tx as int, ty as int));
                assert(j < glyph.buffer.len());
                value = glyph.buffer[j as usize];
            }
            proof {
                assert(value == glyph.value(*m, tx as int, ty as int));
                assert(drawn[p as int] == value);
            }
            set(atlas, index, p, value);
            p = p + 1;
            tx = tx + 1;
        }
        ty = ty + 1;
    }
    assert(cell_h * cell_w == cell_w * cell_h) by (nonlinear_arith);
    assert(atlas_rows(*atlas)[index as int] =~= drawn);
    assert(atlas_rows(*atlas) =~= before.update(index as int, drawn));
}

/// Why an atlas could not be rendered.
#[derive(Debug)]
pub enum FontError {
    /// FreeType refused the font, the size or a character, in its own words.
    Freetype(String),
    /// The cell size of the font is out of range.
    UnusableMetrics,
    /// The bitmap of the character with this index is shorter than its sides say.
    BitmapTooShort(usize),
}

/// The error type of FreeType.
#[verifier::external_type_specification]
#[verifier::external_body]
pub struct ExFreetypeError(freetype::Error);

/// `<freetype::Error as ToString>::to_string`: FreeType's name for the error, of which
/// nothing is claimed.
#[verifier::external_body]
fn describe(e: freetype::Error) -> (r: String)
{
    e.to_string()
}

/// The face of a font file that is used: the first.
pub const FACE: isize = 0;

/// The pixel width that FreeType is asked for: that which fits the height.
pub const CHAR_WIDTH: u32 = 0;

/// `m` is a size that FreeType gave for a face of a font, at a pixel width and height;
/// `None` stands for FreeType having given none.
pub uninterp spec fn sized_as(
    font: Seq<u8>,
    face: isize,
    width: u32,
    height: u32,
    m: Option<SizeMetrics>,
) -> bool;

/// `glyph` is a rendering that FreeType gave of a character of a face of a font, at a pixel
/// width and height; `None` stands for FreeType having given none.
pub uninterp spec fn rendered_as(
    font: Seq<u8>,
    face: isize,
    width: u32,
    height: u32,
    c: char,
    glyph: Option<Glyph>,
) -> bool;

/// `freetype::Face::size_metrics` of a face of a font, opened with
/// `new_memory_face2` and scaled with `set_pixel_sizes`. The metrics are those
/// that the FreeType library on the machine computes, or it gives none; which, and
/// what they are, is not said.
#[verifier::external_body]
fn load_metrics(font: &Vec<u8>, face: isize, width: u32, height: u32) -> (r: Result<
    Option<SizeMetrics>,
    freetype::Error,
>)
    ensures
        match r {
            Ok(m) => sized_as(font@, face, width, height, m),
            Err(_) => sized_as(font@, face, width, height, None),
        },
{
    let library = freetype::Library::init()?;
    let face = library.new_memory_face2(font.as_slice(), face)?;
    face.set_pixel_sizes(width, height)?;
    Ok(
        face.size_metrics().map(
            |m| SizeMetrics {
                ascender: m.ascender.into(),
                height: m.height.into(),
                max_advance: m.max_advance.into(),
            },
        ),
    )
}

/// `freetype::Face::load_char` with the flag `RENDER`, on a face of a font scaled to a
/// pixel width and height, and the glyph slot it fills. The bitmap is the
/// one that the FreeType library on the machine draws, or it gives none; which, and
/// what it is, is not said.
#[verifier::external_body]
fn load_glyph(font: &Vec<u8>, face: isize, width: u32, height: u32, c: char) -> (r: Result<
    Glyph,
    freetype::Error,
>)
    ensures
        match r {
            Ok(glyph) => rendered_as(font@, face, width, height, c, Some(glyph)),
            Err(_) => rendered_as(font@, face, width, height, c, None),
        },
{
    let library = freetype::Library::init()?;
    let face = library.new_memory_face2(font.as_slice(), face)?;
    face.set_pixel_sizes(width, height)?;
    face.load_char(c as usize, freetype::face::LoadFlag::RENDER)?;
    let slot = face.glyph();
    let bitmap = slot.bitmap();
    let (left, top, advance) = (slot.bitmap_left(), slot.bitmap_top(), slot.advance().x.into());
    let (rows, width) = (bitmap.rows(), bitmap.width());
    Ok(Glyph { buffer: bitmap.buffer().to_vec(), rows, width, left, top, advance })
}

/// `atlas` shows the characters as `glyphs`, which FreeType rendered, each
/// placed in a cell of the size that `m` gives.
pub open spec fn drawn_from(
    font: Seq<u8>,
    char_height: u32,
    m: SizeMetrics,
    glyphs: Seq<Glyph>,
    rows: Seq<Seq<u8>>,
) -> bool {
    &&& sized_as(font, FACE, CHAR_WIDTH, char_height, Some(m))
    &&& m.fits()
    &&& glyphs.len() == CHAR_COUNT
    &&& rows.len() == CHAR_COUNT
    &&& forall|i: int|
        0 <= i < CHAR_COUNT ==> {
            &&& rendered_as(font, FACE, CHAR_WIDTH, char_height, charset()[i], Some(#[trigger] glyphs[i]))
            &&& glyphs[i].covers(m)
            &&& rows[i] == glyphs[i].atlas_row(m)
        }
}

/// The atlas rows and the cell size come from one size and one rendering of each
/// character that FreeType gave.
pub open spec fn is_atlas(
    font: Seq<u8>,
    char_height: u32,
    rows: Seq<Seq<u8>>,
    cell_w: u32,
    cell_h: u32,
) -> bool {
    exists|m: SizeMetrics, glyphs: Seq<Glyph>|
        {
            &&& #[trigger] drawn_from(font, char_height, m, glyphs, rows)
            &&& cell_w == m.cell_w()
            &&& cell_h == m.cell_h()
        }
}

/// FreeType gave a size whose cells are out of range.
pub open spec fn unusable(font: Seq<u8>, char_height: u32) -> bool {
    exists|m: SizeMetrics| #[trigger] sized_as(font, FACE, CHAR_WIDTH, char_height, Some(m)) && !m.fits()
}

/// FreeType gave a bitmap of the character with index `i` that is shorter than
/// its sides say.
pub open spec fn too_short(font: Seq<u8>, char_height: u32, i: int) -> bool {
    &&& 0 <= i < CHAR_COUNT
    &&& exists|m: SizeMetrics, glyph: Glyph|
        {
            &&& #[trigger] sized_as(font, FACE, CHAR_WIDTH, char_height, Some(m))
            &&& m.fits()
            &&& #[trigger] rendered_as(font, FACE, CHAR_WIDTH, char_height, charset()[i], Some(glyph))
            &&& !glyph.covers(m)
        }
}

/// FreeType gave no size for the font, or no rendering of one of the characters.
pub open spec fn refused(font: Seq<u8>, char_height: u32) -> bool {
    ||| sized_as(font, FACE, CHAR_WIDTH, char_height, None)
    ||| exists|i: int|
        0 <= i < CHAR_COUNT && rendered_as(font, FACE, CHAR_WIDTH, char_height, #[trigger] charset()[i], None)
}

/// The atlas rows of glyphs, in cells of the size that `m` gives.
pub open spec fn rows_of(m: SizeMetrics, glyphs: Seq<Glyph>) -> Seq<Seq<u8>> {
    Seq::new(glyphs.len(), |i: int| glyphs[i].atlas_row(m))
}

/// Draws the glyphs of all characters into an atlas, and returns it with the width and
/// height of a cell.
pub fn build_atlas(m: &SizeMetrics, glyphs: &Vec<Glyph>) -> (r: Result<
    (CharAtlas, u32, u32),
    FontError,
>)
    requires
        glyphs@.len() == CHAR_COUNT,
    ensures
        match r {
            Ok((atlas, cell_w, cell_h)) => {
                &&& m.fits()
                &&& forall|i: int| 0 <= i < CHAR_COUNT ==> (#[trigger] glyphs@[i]).covers(*m)
                &&& atlas_rows(atlas) == rows_of(*m, glyphs@)
                &&& cell_w == m.cell_w()
                &&& cell_h == m.cell_h()
            },
            Err(FontError::UnusableMetrics) => !m.fits(),
            Err(FontError::BitmapTooShort(i)) => {
                &&& m.fits()
                &&& i < CHAR_COUNT
                &&& !glyphs@[i as int].covers(*m)
                &&& forall|j: int| 0 <= j < i ==> (#[trigger] glyphs@[j]).covers(*m)
            },
            Err(FontError::Freetype(_)) => false,
        },
{
    let (cell_w, cell_h) = m.cell_size();
    let max_side: u32 = 0x7fff_ffff;
    if cell_w > max_side || cell_h > max_side {
        return Err(FontError::UnusableMetrics);
    }
    proof {
        assert(cell_w * cell_h <= 0x7fff_ffff * 0x7fff_ffff) by (nonlinear_arith)
            requires
                cell_w <= 0x7fff_ffff,
                cell_h <= 0x7fff_ffff,
        ;
    }
    let area: u64 = cell_w as u64 * cell_h as u64;
    if area > u32::MAX as u64 {
        return Err(FontError::UnusableMetrics);
    }
    assert(area * CHAR_COUNT == area * 21 == CHAR_COUNT * area) by (nonlinear_arith)
        requires
            CHAR_COUNT == 21,
    ;
    if area * CHAR_COUNT as u64 > isize::MAX as u64 {
        return Err(FontError::UnusableMetrics);
    }
    let mut atlas = zeros(CHAR_COUNT, area as usize);
    let mut i: usize = 0;
    while i < CHAR_COUNT
        invariant
            m.fits(),
            i <= CHAR_COUNT,
            glyphs@.len() == CHAR_COUNT,
            area == m.cell_w() * m.cell_h(),
            atlas_rows(atlas).len() == CHAR_COUNT,
            forall|j: int| i <= j < CHAR_COUNT ==> (#[trigger] atlas_rows(atlas)[j]).len() == area,
            forall|j: int|
                0 <= j < i ==> (#[trigger] glyphs@[j]).covers(*m) && atlas_rows(atlas)[j]
                    == glyphs@[j].atlas_row(*m),
        decreases CHAR_COUNT - i,
    {
        if !covers(m, &glyphs[i]) {
            return Err(FontError::BitmapTooShort(i));
        }
        place_glyph(&mut atlas, i, m, &glyphs[i]);
        i = i + 1;
    }
    assert(atlas_rows(atlas) =~= rows_of(*m, glyphs@)) by {
        assert forall|j: int| 0 <= j < CHAR_COUNT implies atlas_rows(atlas)[j] == rows_of(
            *m,
            glyphs@,
        )[j] by {
            assert(glyphs@[j].covers(*m));
        }
    }
    Ok((atlas, cell_w, cell_h))
}

/// Renders every character of the set with a font at a pixel height, and returns
/// the atlas with the width and height of a cell.
pub fn render_fonts_to_atlas(font: &Vec<u8>, char_height: u32) -> (r: Result<
    (CharAtlas, u32, u32),
    FontError,
>)
    ensures
        r matches Ok((atlas, cell_w, cell_h)) ==> is_atlas(
            font@,
            char_height,
            atlas_rows(atlas),
            cell_w,
            cell_h,
        ),
        r matches Err(FontError::UnusableMetrics) ==> unusable(font@, char_height),
        r matches Err(FontError::BitmapTooShort(i)) ==> too_short(font@, char_height, i as int),
        r matches Err(FontError::Freetype(_)) ==> refused(font@, char_height),
{
    let m = match load_metrics(font, FACE, CHAR_WIDTH, char_height) {
        Ok(Some(m)) => m,
        Ok(None) => return Err(FontError::Freetype(owned("No size metrics"))),
        Err(e) => return Err(FontError::Freetype(describe(e))),
    };
    let mut glyphs: Vec<Glyph> = Vec::new();
    let mut i: usize = 0;
    while i < CHAR_COUNT
        invariant
            i <= CHAR_COUNT,
            glyphs@.len() == i,
            forall|j: int|
                0 <= j < i ==> rendered_as(
                    font@,
                    FACE,
                    CHAR_WIDTH,
                    char_height,
                    charset()[j],
                    Some(#[trigger] glyphs@[j]),
                ),
        decreases CHAR_COUNT - i,
    {
        match load_glyph(font, FACE, CHAR_WIDTH, char_height, char_at(i)) {
            Ok(glyph) => glyphs.push(glyph),
            Err(e) => return Err(FontError::Freetype(describe(e))),
        }
        i = i + 1;
    }
    let r = build_atlas(&m, &glyphs);
    assert(r matches Ok((atlas, _, _)) ==> drawn_from(
        font@,
        char_height,
        m,
        glyphs@,
        atlas_rows(atlas),
    ));
    assert(r matches Err(FontError::BitmapTooShort(k)) ==> rendered_as(
        font@,
        FACE,
        CHAR_WIDTH,
        char_height,
        charset()[k as int],
        Some(glyphs@[k as int]),
    ));
    r
}

} // verus!
