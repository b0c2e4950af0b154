//! Where the glyphs of a font stand in the cells of an atlas.
use vstd::prelude::*;
use crate::charset::{charset, CHAR_COUNT};
use crate::font_renderer::{
    atlas_rows, build_atlas, covers, drawn_from, lemma_place, place_glyph, render_fonts_to_atlas,
    rendered_as, sized_as, CharAtlas, FontError, Glyph, SizeMetrics,
};

verus! {

/// Whether `pixels` are the whole pixels of a length in 64ths of a pixel, as a signed number
/// of 32 bits. A length that is too large for that is counted in such numbers, round and
/// round.
pub open spec fn is_whole(pixels: int, length: i64) -> bool {
    &&& i32::MIN <= pixels <= i32::MAX
    &&& (length as int / 64 - pixels) % 0x1_0000_0000 == 0
}

/// Whether `shift` is half of `slack`, rounded toward zero.
pub open spec fn is_half(shift: int, slack: int) -> bool {
    if slack >= 0 {
        2 * shift <= slack < 2 * shift + 2
    } else {
        2 * shift - 2 < slack <= 2 * shift
    }
}

/// A cell is as wide as the font's largest advance and as high as its lines, in whole
/// pixels, and the atlas has such a cell for each of the 21 characters. Lengths too large
/// for an unsigned number of 32 bits are counted in such numbers, round and round.
pub proof fn law_cell_size(
    m: SizeMetrics,
    glyphs: Vec<Glyph>,
    r: Result<(CharAtlas, u32, u32), FontError>,
    i: int,
)
    requires
        glyphs@.len() == 21,
        build_atlas.ensures((&m, &glyphs), r),
        0 <= i < 21,
    ensures
        r matches Ok((atlas, cell_w, cell_h)) ==> {
            &&& 0 <= m.max_advance < 0x40_0000_0000 ==> 64 * cell_w <= m.max_advance < 64 * cell_w
                + 64
            &&& 0 <= m.height < 0x40_0000_0000 ==> 64 * cell_h <= m.height < 64 * cell_h + 64
            &&& (m.max_advance as int / 64 - cell_w) % 0x1_0000_0000 == 0
            &&& (m.height as int / 64 - cell_h) % 0x1_0000_0000 == 0
            &&& atlas_rows(atlas).len() == 21
            &&& atlas_rows(atlas)[i].len() == cell_w * cell_h
        },
{
    if let Ok((atlas, cell_w, cell_h)) = r {
        assert(0 <= cell_w * cell_h) by (nonlinear_arith);
        assert(atlas_rows(atlas)[i] == glyphs@[i].atlas_row(m));
    }
}

/// A glyph hangs from the baseline and is centred by its advance: its pixel `gy` rows below
/// its top and `gx` columns from its left edge falls on the cell's row `ascent - top + gy`,
/// or on row `gy` where the glyph is higher than the ascent, and on the column
/// `left + gx`, moved by half of what the advance leaves of the cell. What falls outside
/// of the cell is cut off. `ascent` and `advance` are the font's and the glyph's in whole
/// pixels.
pub proof fn law_glyph_stands_on_baseline(
    m: SizeMetrics,
    glyphs: Vec<Glyph>,
    r: Result<(CharAtlas, u32, u32), FontError>,
    i: int,
    gx: int,
    gy: int,
    ascent: int,
    advance: int,
    shift: int,
)
    requires
        glyphs@.len() == 21,
        build_atlas.ensures((&m, &glyphs), r),
        0 <= i < 21,
        0 <= gx < glyphs@[i].width,
        0 <= gy < glyphs@[i].rows,
        is_whole(ascent, m.ascender),
        is_whole(advance, glyphs@[i].advance),
    ensures
        r matches Ok((atlas, cell_w, cell_h)) ==> is_half(shift, cell_w - advance) ==> {
            let g = glyphs@[i];
            let tx = g.left + gx + shift;
            let low = ascent - g.top + gy;
            let value = g.buffer@[gy * g.width + gx];
            &&& g.top <= ascent && 0 <= tx < cell_w && 0 <= low < cell_h ==> atlas_rows(
                atlas,
            )[i][low * cell_w + tx] == value
            &&& g.top > ascent && 0 <= tx < cell_w && gy < cell_h ==> atlas_rows(atlas)[i][gy
                * cell_w + tx] == value
        },
{
    if let Ok((atlas, cell_w, cell_h)) = r {
        if is_half(shift, cell_w - advance) {
            let g = glyphs@[i];
            assert(atlas_rows(atlas)[i] == g.atlas_row(m));
            let tx = g.left + gx + shift;
            let ty = if g.top <= ascent { ascent - g.top + gy } else { gy };
            lemma_offsets(m, g, ascent, advance, shift);
            if 0 <= tx < cell_w && 0 <= ty < cell_h {
                lemma_pixel(m, g, gx, gy);
                lemma_entry(m, g, tx, ty);
            }
        }
    }
}

/// Where a glyph starts in its cell.
proof fn lemma_offsets(m: SizeMetrics, g: Glyph, ascent: int, advance: int, shift: int)
    requires
        is_whole(ascent, m.ascender),
        is_whole(advance, g.advance),
        is_half(shift, m.cell_w() - advance),
    ensures
        g.x_offset(m) == g.left + shift,
        g.y_offset(m) == if g.top <= ascent {
            ascent - g.top
        } else {
            0
        },
{
}

/// The pixel `(gx, gy)` of a glyph is shown at its place from where the glyph starts.
proof fn lemma_pixel(m: SizeMetrics, g: Glyph, gx: int, gy: int)
    requires
        0 <= gx < g.width,
        0 <= gy < g.rows,
    ensures
        g.value(m, g.x_offset(m) + gx, g.y_offset(m) + gy) == g.buffer@[gy * g.width + gx],
{
}

/// An entry of an atlas row is the value of the glyph there.
proof fn lemma_entry(m: SizeMetrics, g: Glyph, tx: int, ty: int)
    requires
        0 <= tx < m.cell_w(),
        0 <= ty < m.cell_h(),
    ensures
        0 <= ty * m.cell_w() + tx < m.cell_w() * m.cell_h(),
        g.atlas_row(m).len() == m.cell_w() * m.cell_h(),
        g.atlas_row(m)[ty * m.cell_w() + tx] == g.value(m, tx, ty),
{
    let (w, h) = (m.cell_w(), m.cell_h());
    lemma_place(w, tx, ty);
    assert(0 <= ty * w && ty * w + w <= w * h) by (nonlinear_arith)
        requires
            0 <= ty < h,
            0 < w,
    ;
}

/// A cell is empty but for its glyph: where an entry is not 0, the glyph has a pixel that
/// stands there.
pub proof fn law_rest_of_cell_is_empty(
    m: SizeMetrics,
    glyphs: Vec<Glyph>,
    r: Result<(CharAtlas, u32, u32), FontError>,
    i: int,
    tx: int,
    ty: int,
    ascent: int,
    advance: int,
    shift: int,
)
    requires
        glyphs@.len() == 21,
        build_atlas.ensures((&m, &glyphs), r),
        0 <= i < 21,
        is_whole(ascent, m.ascender),
        is_whole(advance, glyphs@[i].advance),
    ensures
        r matches Ok((atlas, cell_w, cell_h)) ==> is_half(shift, cell_w - advance) ==> {
            let g = glyphs@[i];
            0 <= tx < cell_w && 0 <= ty < cell_h && atlas_rows(atlas)[i][ty * cell_w + tx] != 0 ==> {
                &&& 0 <= tx - g.left - shift < g.width
                &&& g.top <= ascent ==> 0 <= ty - (ascent - g.top) < g.rows
                &&& g.top > ascent ==> ty < g.rows
            }
        },
{
    if let Ok((atlas, cell_w, cell_h)) = r {
        if is_half(shift, cell_w - advance) && 0 <= tx < cell_w && 0 <= ty < cell_h {
            let g = glyphs@[i];
            assert(atlas_rows(atlas)[i] == g.atlas_row(m));
            lemma_offsets(m, g, ascent, advance, shift);
            lemma_entry(m, g, tx, ty);
        }
    }
}

/// A glyph whose top is one row lower, and not above the ascent, is drawn one row lower.
pub proof fn law_lower_glyph_is_drawn_lower(
    m: SizeMetrics,
    glyphs: Vec<Glyph>,
    lower: Vec<Glyph>,
    r: Result<(CharAtlas, u32, u32), FontError>,
    s: Result<(CharAtlas, u32, u32), FontError>,
    i: int,
    ascent: int,
    tx: int,
    ty: int,
)
    requires
        glyphs@.len() == 21,
        lower@.len() == 21,
        build_atlas.ensures((&m, &glyphs), r),
        build_atlas.ensures((&m, &lower), s),
        0 <= i < 21,
        is_whole(ascent, m.ascender),
        glyphs@[i].top <= ascent,
        lower@[i].top == glyphs@[i].top - 1,
        lower@[i].buffer@ == glyphs@[i].buffer@,
        lower@[i].rows == glyphs@[i].rows,
        lower@[i].width == glyphs@[i].width,
        lower@[i].left == glyphs@[i].left,
        lower@[i].advance == glyphs@[i].advance,
    ensures
        r matches Ok((before, cell_w, cell_h)) ==> s matches Ok((after, _, _)) ==> 0 <= tx < cell_w
            && 0 <= ty < cell_h - 1 ==> atlas_rows(after)[i][(ty + 1) * cell_w + tx] == atlas_rows(
            before,
        )[i][ty * cell_w + tx],
{
    if let Ok((before, cell_w, cell_h)) = r {
        if let Ok((after, _, _)) = s {
            let (g, l) = (glyphs@[i], lower@[i]);
            assert(atlas_rows(before)[i] == g.atlas_row(m));
            assert(atlas_rows(after)[i] == l.atlas_row(m));
            if 0 <= tx < cell_w && 0 <= ty < cell_h - 1 {
                lemma_entry(m, g, tx, ty);
                lemma_entry(m, l, tx, ty + 1);
            }
        }
    }
}

/// An atlas is drawn wherever the sizes allow it: if the sides of a cell are signed numbers
/// of 32 bits, its pixels can be counted in 32 bits, and those of all cells in an `isize`,
/// and if each glyph has as many pixels as its sides say. The metrics are refused exactly
/// if they do not allow it, and a glyph that is reported as too short has fewer pixels
/// than its sides say.
pub proof fn law_atlas_is_drawn(
    m: SizeMetrics,
    glyphs: Vec<Glyph>,
    r: Result<(CharAtlas, u32, u32), FontError>,
    w: int,
    h: int,
)
    requires
        glyphs@.len() == 21,
        build_atlas.ensures((&m, &glyphs), r),
        0 <= w <= u32::MAX,
        0 <= h <= u32::MAX,
        (m.max_advance as int / 64 - w) % 0x1_0000_0000 == 0,
        (m.height as int / 64 - h) % 0x1_0000_0000 == 0,
    ensures
        ({
            let usable = w <= i32::MAX && h <= i32::MAX && w * h <= u32::MAX && 21 * (w * h)
                <= isize::MAX;
            &&& !usable <==> (r matches Err(e) && e is UnusableMetrics)
            &&& usable && (forall|i: int|
                0 <= i < 21 ==> glyphs@[i].width * glyphs@[i].rows <= (
                #[trigger] glyphs@[i]).buffer@.len()) ==> r is Ok
            &&& r matches Err(FontError::BitmapTooShort(i)) ==> i < 21
                && glyphs@[i as int].buffer@.len() < glyphs@[i as int].width
                * glyphs@[i as int].rows
            &&& !(r matches Err(FontError::Freetype(_)))
        }),
{
    assert(m.cell_w() == w && m.cell_h() == h);
    assert(CHAR_COUNT * (w * h) == 21 * (w * h)) by (nonlinear_arith)
        requires
            CHAR_COUNT == 21,
    ;
    if let Err(FontError::BitmapTooShort(k)) = r {
        let g = glyphs@[k as int];
        let (tx, ty) = choose|tx: int, ty: int|
            0 <= tx < w && 0 <= ty < h && #[trigger] g.shows(m, tx, ty) && g.source(m, tx, ty)
                >= g.buffer@.len();
        let (x, y) = (tx - g.x_offset(m), ty - g.y_offset(m));
        assert(y * g.width + x < g.width * g.rows) by (nonlinear_arith)
            requires
                0 <= x < g.width,
                0 <= y < g.rows,
        ;
    }
}

/// The pixels of the glyphs of an atlas that stand inside their cells were all there to be
/// drawn.
pub proof fn law_drawn_pixels_are_there(
    m: SizeMetrics,
    glyphs: Vec<Glyph>,
    r: Result<(CharAtlas, u32, u32), FontError>,
    i: int,
    gx: int,
    gy: int,
    ascent: int,
    advance: int,
    shift: int,
)
    requires
        glyphs@.len() == 21,
        build_atlas.ensures((&m, &glyphs), r),
        0 <= i < 21,
        0 <= gx < glyphs@[i].width,
        0 <= gy < glyphs@[i].rows,
        is_whole(ascent, m.ascender),
        is_whole(advance, glyphs@[i].advance),
    ensures
        r matches Ok((_, cell_w, cell_h)) ==> is_half(shift, cell_w - advance) ==> {
            let g = glyphs@[i];
            let ty = gy + if g.top <= ascent { ascent - g.top } else { 0 };
            0 <= g.left + gx + shift < cell_w && 0 <= ty < cell_h ==> gy * g.width + gx
                < g.buffer@.len()
        },
{
    if let Ok((_, cell_w, cell_h)) = r {
        if is_half(shift, cell_w - advance) {
            let g = glyphs@[i];
            assert(g.covers(m));
            lemma_offsets(m, g, ascent, advance, shift);
            let (tx, ty) = (g.x_offset(m) + gx, g.y_offset(m) + gy);
            assert(g.shows(m, tx, ty));
            assert(g.source(m, tx, ty) == gy * g.width + gx);
        }
    }
}

/// Drawing one glyph draws its row of the atlas as drawing all does, and leaves the other
/// rows as they are. It can be drawn exactly if `covers` says so.
pub proof fn law_glyph_is_drawn_alone(
    atlas: &mut CharAtlas,
    index: usize,
    m: SizeMetrics,
    glyphs: Vec<Glyph>,
    r: Result<(CharAtlas, u32, u32), FontError>,
    drawable: bool,
    j: int,
)
    requires
        glyphs@.len() == 21,
        build_atlas.ensures((&m, &glyphs), r),
        index < 21,
        atlas_rows(*old(atlas)).len() == 21,
        covers.ensures((&m, &glyphs@[index as int]), drawable),
        place_glyph.ensures((atlas, index, &m, &glyphs@[index as int]), ()),
        0 <= j < 21,
    ensures
        atlas_rows(*final(atlas)).len() == 21,
        j != index ==> atlas_rows(*final(atlas))[j] == atlas_rows(*old(atlas))[j],
        r matches Ok((all, _, _)) ==> atlas_rows(*final(atlas))[index as int] == atlas_rows(
            all,
        )[index as int],
        r is Ok ==> drawable,
        r matches Err(FontError::BitmapTooShort(k)) ==> (index < k ==> drawable) && (index == k
            ==> !drawable),
{
}

/// A font is refused for what FreeType gave: an error of FreeType's for the font or for one
/// of the characters, at the pixel height asked for.
pub proof fn law_font_errors(
    font: Vec<u8>,
    char_height: u32,
    r: Result<(CharAtlas, u32, u32), FontError>,
)
    requires
        render_fonts_to_atlas.ensures((&font, char_height), r),
    ensures
        r matches Err(FontError::Freetype(_)) ==> sized_as(font@, 0, 0, char_height, None)
            || exists|i: int|
            0 <= i < 21 && rendered_as(font@, 0, 0, char_height, #[trigger] charset()[i], None),
        r matches Err(FontError::BitmapTooShort(i)) ==> i < 21 && exists|glyph: Glyph|
            #[trigger] rendered_as(
                font@,
                0,
                0,
                char_height,
                charset()[i as int],
                Some(glyph),
            ) && glyph.buffer@.len() < glyph.width * glyph.rows,
        r matches Err(FontError::UnusableMetrics) ==> exists|m: SizeMetrics| #[trigger]
            sized_as(font@, 0, 0, char_height, Some(m)) && !m.fits(),
{
    if let Err(FontError::BitmapTooShort(i)) = r {
        let (m, glyph) = choose|m: SizeMetrics, glyph: Glyph|
            {
                &&& #[trigger] sized_as(font@, 0, 0, char_height, Some(m))
                &&& m.fits()
                &&& #[trigger] rendered_as(
                    font@,
                    0,
                    0,
                    char_height,
                    charset()[i as int],
                    Some(glyph),
                )
                &&& !glyph.covers(m)
            };
        let (tx, ty) = choose|tx: int, ty: int|
            0 <= tx < m.cell_w() && 0 <= ty < m.cell_h() && #[trigger] glyph.shows(m, tx, ty)
                && glyph.source(m, tx, ty) >= glyph.buffer@.len();
        let (x, y) = (tx - glyph.x_offset(m), ty - glyph.y_offset(m));
        assert(y * glyph.width + x < glyph.width * glyph.rows) by (nonlinear_arith)
            requires
                0 <= x < glyph.width,
                0 <= y < glyph.rows,
        ;
    }
}

/// The atlas of a font shows each character in its own row, as FreeType gave it for the
/// first face at the pixel height asked for: each row is that which `build_atlas` draws of
/// it.
pub proof fn law_font_atlas(
    font: Vec<u8>,
    char_height: u32,
    r: Result<(CharAtlas, u32, u32), FontError>,
)
    requires
        render_fonts_to_atlas.ensures((&font, char_height), r),
    ensures
        r matches Ok((atlas, cell_w, cell_h)) ==> exists|m: SizeMetrics, glyphs: Seq<Glyph>|
            {
                &&& sized_as(font@, 0, 0, char_height, Some(m))
                &&& glyphs.len() == 21
                &&& forall|i: int|
                    0 <= i < 21 ==> rendered_as(
                        font@,
                        0,
                        0,
                        char_height,
                        charset()[i],
                        Some(#[trigger] glyphs[i]),
                    )
                &&& #[trigger] drawn_as_built(m, glyphs, atlas_rows(atlas), cell_w, cell_h)
            },
{
    if let Ok((atlas, cell_w, cell_h)) = r {
        let (m, glyphs) = choose|m: SizeMetrics, glyphs: Seq<Glyph>|
            #[trigger] drawn_from(font@, char_height, m, glyphs, atlas_rows(atlas)) && cell_w
                == m.cell_w() && cell_h == m.cell_h();
        assert forall|list: Vec<Glyph>, s: Result<(CharAtlas, u32, u32), FontError>|
            list@ == glyphs && #[trigger] build_atlas.ensures((&m, &list), s) implies (s matches Ok(
            (built, w, h),
        ) && atlas_rows(built) == atlas_rows(atlas) && w == cell_w && h == cell_h) by {
            assert forall|i: int| 0 <= i < CHAR_COUNT implies (#[trigger] list@[i]).covers(m) by {
                assert(glyphs[i].covers(m));
            }
            match s {
                Ok((built, w, h)) => {
                    assert forall|i: int| 0 <= i < 21 implies atlas_rows(built)[i] == atlas_rows(
                        atlas,
                    )[i] by {
                        assert(glyphs[i].covers(m));
                    }
                    assert(atlas_rows(built) =~= atlas_rows(atlas));
                },
                Err(FontError::BitmapTooShort(k)) => {
                    assert(list@[k as int].covers(m));
                },
                _ => {},
            }
        }
        assert(drawn_as_built(m, glyphs, atlas_rows(atlas), cell_w, cell_h));
    }
}

/// Atlas rows and a cell size are what `build_atlas` gives of metrics and glyphs.
pub open spec fn drawn_as_built(
    m: SizeMetrics,
    glyphs: Seq<Glyph>,
    rows: Seq<Seq<u8>>,
    cell_w: u32,
    cell_h: u32,
) -> bool {
    forall|list: Vec<Glyph>, s: Result<(CharAtlas, u32, u32), FontError>|
        list@ == glyphs && #[trigger] build_atlas.ensures((&m, &list), s) ==> (s matches Ok(
            (built, w, h),
        ) && atlas_rows(built) == rows && w == cell_w && h == cell_h)
}

} // verus!
