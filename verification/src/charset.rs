//! The characters that cells are drawn with.
use vstd::prelude::*;

verus! {

/// Fill characters, dimmest to brightest.
pub const CHARS: [char; 10] = [' ', '.', ':', '*', 'o', '?', '#', '%', '@', '■'];

/// Edge characters, in no order.
pub const EDGE_CHARS: [char; 11] = ['|', '/', '-', '\\', '^', 'V', '<', '>', 'T', 'L', 'X'];

/// How many characters there are in all.
pub const CHAR_COUNT: usize = 21;

/// All characters: the fill characters, then the edge characters.
pub open spec fn charset() -> Seq<char> {
    CHARS@ + EDGE_CHARS@
}

/// The character with an index.
pub fn char_at(index: usize) -> (c: char)
    requires
        index < CHAR_COUNT,
    ensures
        c == charset()[index as int],
        charset().len() == CHAR_COUNT,
{
    if index < CHARS.len() {
        CHARS[index]
    } else {
        EDGE_CHARS[index - CHARS.len()]
    }
}

/// No character occurs twice, and none is a newline.
pub proof fn law_charset_distinct(i: int, j: int)
    requires
        0 <= i < CHAR_COUNT,
        0 <= j < CHAR_COUNT,
    ensures
        charset().len() == CHAR_COUNT,
        charset()[i] == charset()[j] ==> i == j,
        charset()[i] != '\n',
{
    assert(CHARS@ =~= seq![' ', '.', ':', '*', 'o', '?', '#', '%', '@', '■']);
    assert(EDGE_CHARS@ =~= seq!['|', '/', '-', '\\', '^', 'V', '<', '>', 'T', 'L', 'X']);
}

} // verus!
