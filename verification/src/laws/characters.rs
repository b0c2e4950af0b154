//! Which character a cell gets, and how characters become text.
use vstd::prelude::*;
use crate::algorithm::{
    char_indices_to_string, choose_index, choose_indices, first_special, law_grid_text_places,
    try_special, CellReading, StrokeTests,
};
use crate::charset::{char_at, charset, CHARS, EDGE_CHARS};

verus! {

/// A cell shows a single straight stroke only where its gradients are strong and agree.
/// A cell whose gradients do not agree, and whose strokes form no edge, shows the fill
/// character of its brightness, however strong its gradients are.
pub proof fn law_stroke_needs_strength_and_agreement(reading: CellReading, r: usize)
    requires
        choose_index.ensures((&reading,), r),
    ensures
        reading.level < 10 && 10 <= r <= 13 ==> reading.energetic && reading.coherent,
        !reading.coherent && !reading.incoherent ==> r == reading.level,
        !reading.energetic && !reading.incoherent ==> r == reading.level,
        !reading.coherent && !({
            let s = reading.strokes;
            ||| s.left_backslash && s.right_slash
            ||| s.left_slash && s.right_backslash
            ||| s.top_backslash && s.bottom_slash
            ||| s.top_slash && s.bottom_backslash
            ||| s.top_joins_horizontal && s.bottom_vertical
            ||| s.top_right_quiet && s.left_joins_vertical && s.bottom_right_horizontal
            ||| s.top_left_backslash && s.top_right_slash && s.bottom_left_slash
                && s.bottom_right_backslash
        }) ==> r == reading.level,
        reading.level < 10 && r < 10 ==> r == reading.level && !(reading.energetic
            && reading.coherent),
        reading.level < 10 ==> r < 21,
{
    reveal_with_fuel(first_special, 8);
}

/// Where the gradients are strong and agree, and do not disagree either, the stroke shown
/// is the one of the direction: the quarters of a half turn are |, /, - and \, and the
/// fourth quarter is the zeroth again.
pub proof fn law_stroke_follows_direction(reading: CellReading, r: usize)
    requires
        choose_index.ensures((&reading,), r),
        reading.energetic,
        reading.coherent,
        !reading.incoherent,
    ensures
        10 <= r <= 13,
        (r - 10) % 4 == reading.angle_bin % 4,
{
}

/// Two readings that differ in nothing but the direction get the same character, or
/// straight strokes of their directions; two that differ in nothing but the brightness get
/// the same character, or the fill characters of their brightness.
pub proof fn law_direction_and_brightness(a: CellReading, b: CellReading, ra: usize, rb: usize)
    requires
        choose_index.ensures((&a,), ra),
        choose_index.ensures((&b,), rb),
        a.incoherent == b.incoherent,
        a.coherent == b.coherent,
        a.energetic == b.energetic,
        a.strokes == b.strokes,
    ensures
        a.level == b.level ==> ra == rb || (a.energetic && a.coherent && ra == 10 + a.angle_bin % 4
            && rb == 10 + b.angle_bin % 4),
        a.angle_bin == b.angle_bin ==> ra == rb || (ra == a.level && rb == b.level),
{
}

/// An edge of several strokes is shown only where the gradients of the whole cell disagree
/// and its own strokes are there: ^, V, <, >, T, L and X.
pub proof fn law_edge_needs_its_strokes(reading: CellReading, r: usize)
    requires
        choose_index.ensures((&reading,), r),
        reading.level < 10,
    ensures
        r >= 14 ==> reading.incoherent,
        r == 14 ==> reading.strokes.left_slash && reading.strokes.right_backslash,
        r == 15 ==> reading.strokes.left_backslash && reading.strokes.right_slash,
        r == 16 ==> reading.strokes.top_slash && reading.strokes.bottom_backslash,
        r == 17 ==> reading.strokes.top_backslash && reading.strokes.bottom_slash,
        r == 18 ==> reading.strokes.top_joins_horizontal && reading.strokes.bottom_vertical,
        r == 19 ==> reading.strokes.top_right_quiet && reading.strokes.left_joins_vertical
            && reading.strokes.bottom_right_horizontal,
        r == 20 ==> reading.strokes.top_left_backslash && reading.strokes.top_right_slash
            && reading.strokes.bottom_left_slash && reading.strokes.bottom_right_backslash,
{
    reveal_with_fuel(first_special, 8);
}

/// Where the gradients of the whole cell disagree and strokes form an edge, an edge of
/// several strokes is shown: V before all others, then ^, >, <, T, L and X.
pub proof fn law_edge_is_preferred(reading: CellReading, r: usize)
    requires
        choose_index.ensures((&reading,), r),
        reading.incoherent,
    ensures
        ({
            let s = reading.strokes;
            let v = s.left_backslash && s.right_slash;
            let hat = s.left_slash && s.right_backslash;
            let right = s.top_backslash && s.bottom_slash;
            let left = s.top_slash && s.bottom_backslash;
            let tee = s.top_joins_horizontal && s.bottom_vertical;
            let ell = s.top_right_quiet && s.left_joins_vertical && s.bottom_right_horizontal;
            let cross = s.top_left_backslash && s.top_right_slash && s.bottom_left_slash
                && s.bottom_right_backslash;
            &&& v ==> r == 15
            &&& hat && !v ==> r == 14
            &&& right && !v && !hat ==> r == 17
            &&& left && !v && !hat && !right ==> r == 16
            &&& tee && !v && !hat && !right && !left ==> r == 18
            &&& ell && !v && !hat && !right && !left && !tee ==> r == 19
            &&& cross && !v && !hat && !right && !left && !tee && !ell ==> r == 20
        }),
{
    reveal_with_fuel(first_special, 8);
}

/// A cell whose gradients agree never shows an edge of several strokes: the stroke tests
/// then have no say.
pub proof fn law_strokes_have_no_say_in_agreement(
    a: CellReading,
    b: CellReading,
    ra: usize,
    rb: usize,
)
    requires
        choose_index.ensures((&a,), ra),
        choose_index.ensures((&b,), rb),
        !a.incoherent,
        !b.incoherent,
        a.coherent == b.coherent,
        a.energetic == b.energetic,
        a.angle_bin == b.angle_bin,
        a.level == b.level,
    ensures
        ra == rb,
{
}

/// The edge that is picked of the strokes of a cell: its strokes are there, and no edge
/// before it in the order V, ^, >, <, T, L, X has its strokes; none is picked exactly if
/// none has.
pub proof fn law_picked_edge_has_its_strokes(s: StrokeTests, r: Option<usize>)
    requires
        try_special.ensures((&s,), r),
    ensures
        ({
            let v = s.left_backslash && s.right_slash;
            let hat = s.left_slash && s.right_backslash;
            let right = s.top_backslash && s.bottom_slash;
            let left = s.top_slash && s.bottom_backslash;
            let tee = s.top_joins_horizontal && s.bottom_vertical;
            let ell = s.top_right_quiet && s.left_joins_vertical && s.bottom_right_horizontal;
            let cross = s.top_left_backslash && s.top_right_slash && s.bottom_left_slash
                && s.bottom_right_backslash;
            &&& r == Some(5usize) <==> v
            &&& r == Some(4usize) <==> hat && !v
            &&& r == Some(7usize) <==> right && !v && !hat
            &&& r == Some(6usize) <==> left && !v && !hat && !right
            &&& r == Some(8usize) <==> tee && !v && !hat && !right && !left
            &&& r == Some(9usize) <==> ell && !v && !hat && !right && !left && !tee
            &&& r == Some(10usize) <==> cross && !v && !hat && !right && !left && !tee && !ell
            &&& r is None <==> !v && !hat && !right && !left && !tee && !ell && !cross
        }),
{
    reveal_with_fuel(first_special, 8);
}

/// The characters of many cells are those of each cell on its own.
pub proof fn law_cells_are_chosen_one_by_one(
    readings: Vec<CellReading>,
    all: Vec<usize>,
    k: int,
    one: usize,
)
    requires
        choose_indices.ensures((&readings,), all),
        choose_index.ensures((&readings@[k],), one),
    ensures
        all@.len() == readings@.len(),
        0 <= k < readings@.len() ==> all@[k] == one,
{
}

/// The characters by their indices: ten fill characters, dimmest first, then the edge
/// characters.
pub proof fn law_characters(index: usize, c: char)
    requires
        index < 21,
        char_at.ensures((index,), c),
    ensures
        c == seq![
            ' ', '.', ':', '*', 'o', '?', '#', '%', '@', '■', '|', '/', '-', '\\', '^', 'V', '<',
            '>', 'T', 'L', 'X',
        ][index as int],
{
    lemma_charset();
}

proof fn lemma_charset()
    ensures
        charset() == seq![
            ' ', '.', ':', '*', 'o', '?', '#', '%', '@', '■', '|', '/', '-', '\\', '^', 'V', '<',
            '>', 'T', 'L', 'X',
        ],
{
    assert(CHARS@ =~= seq![' ', '.', ':', '*', 'o', '?', '#', '%', '@', '■']);
    assert(EDGE_CHARS@ =~= seq!['|', '/', '-', '\\', '^', 'V', '<', '>', 'T', 'L', 'X']);
}

/// The text of an image has, for each row of cells, the characters of the row's cells from
/// left to right and a newline, and nothing else.
pub proof fn law_text_shows_cells(
    cell_w: usize,
    cell_h: usize,
    img_width: usize,
    img_height: usize,
    indices: &[usize],
    r: String,
    row: int,
    col: int,
    c: char,
)
    requires
        cell_w > 0,
        cell_h > 0,
        char_indices_to_string.ensures((cell_w, cell_h, img_width, img_height, indices), r),
        0 <= row < img_height / cell_h,
        0 <= col < img_width / cell_w,
        char_at.ensures((indices@[row * (img_width / cell_w) + col],), c),
    ensures
        r@.len() == (img_height / cell_h) * (img_width / cell_w + 1),
        r@[row * (img_width / cell_w + 1) + col] == c,
        r@[row * (img_width / cell_w + 1) + img_width / cell_w] == '\n',
{
    let cols = (img_width / cell_w) as int;
    let rows = (img_height / cell_h) as int;
    law_grid_text_places(cols, rows, indices@, row, col);
    law_grid_text_places(cols, rows, indices@, row, cols);
}

/// The text of an image is as long as its lines are, also where it has no whole cells: an
/// image that is no cell high has no text, and one that is no cell wide has empty lines.
pub proof fn law_text_lines(
    cell_w: usize,
    cell_h: usize,
    img_width: usize,
    img_height: usize,
    indices: &[usize],
    r: String,
    row: int,
)
    requires
        cell_w > 0,
        cell_h > 0,
        char_indices_to_string.ensures((cell_w, cell_h, img_width, img_height, indices), r),
    ensures
        r@.len() == (img_height / cell_h) * (img_width / cell_w + 1),
        0 <= row < img_height / cell_h ==> r@[row * (img_width / cell_w + 1) + img_width / cell_w]
            == '\n',
{
    let cols = (img_width / cell_w) as int;
    let rows = (img_height / cell_h) as int;
    assert(0 <= rows * (cols + 1)) by (nonlinear_arith)
        requires
            0 <= rows,
            0 <= cols,
    ;
    if 0 <= row < rows {
        law_grid_text_places(cols, rows, indices@, row, cols);
    }
    assert(rows == 0 ==> rows * (cols + 1) == 0) by (nonlinear_arith);
}

} // verus!
