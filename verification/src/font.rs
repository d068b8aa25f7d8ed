use vstd::prelude::*;

verus! {

/// Glyph cells in the font sheet are this many pixels wide.
pub const GLYPH_WIDTH: i128 = 12;

/// The font sheet has this many glyph cells per row.
pub const SHEET_COLUMNS: u32 = 16;

/// The glyph that stands for `c`: printable ASCII (32 to 127) in code order
/// from glyph 0, and glyph 95 for every other character.
pub open spec fn glyph_index(c: char) -> nat {
    if 32 <= (c as int) <= 127 {
        ((c as int) - 32) as nat
    } else {
        95
    }
}

/// How many pixels are trimmed from each side of each glyph.
pub open spec fn kern_table() -> Seq<int> {
    seq![
        4, 3, 2, 0, 0, 0, 0, 3, 2, 2, 1, 1, 3, 1, 4, 0,
        0, 0, 0, 0, 0, 0, 0, 0, 0, 0, 3, 3, 0, 0, 0, 0,
        0, 0, 0, 0, 0, 0, 0, 0, 0, 0, 0, 0, 0, 0, 0, 0,
        0, 0, 0, 0, 0, 0, 0, 0, 0, 0, 0, 2, 0, 2, 0, 1,
        2, 0, 0, 0, 0, 0, 0, 0, 0, 3, 0, 0, 3, 0, 0, 0,
        0, 0, 0, 0, 0, 0, 0, 0, 0, 0, 0, 0, 3, 0, 0, 0,
    ]
}

/// How many pixels each glyph is drawn below the line (descenders).
pub open spec fn y_offset_table() -> Seq<int> {
    seq![
        0, 0, 0, 0, 0, 0, 0, 0, 0, 0, 0, 0, 0, 0, 0, 0,
        0, 0, 0, 0, 0, 0, 0, 0, 0, 0, 0, 0, 0, 0, 0, 0,
        0, 0, 0, 0, 0, 0, 0, 0, 0, 0, 0, 0, 0, 0, 0, 0,
        0, 0, 0, 0, 0, 0, 0, 0, 0, 0, 0, 0, 0, 0, 0, 0,
        0, 0, 0, 0, 0, 0, 0, 3, 0, 0, 3, 0, 0, 0, 0, 0,
        3, 3, 0, 0, 0, 0, 0, 0, 0, 3, 0, 0, 0, 0, 0, 0,
    ]
}

/// The trim of the glyph for `c`.
pub open spec fn kern(c: char) -> int {
    kern_table()[glyph_index(c) as int]
}

/// The drop of the glyph for `c`.
pub open spec fn y_offset(c: char) -> int {
    y_offset_table()[glyph_index(c) as int]
}

/// How many pixels the glyph for `c` takes on the line once trimmed on both sides.
pub open spec fn advance(c: char) -> int {
    GLYPH_WIDTH - 2 * kern(c)
}

/// The number of bytes that `c` takes in UTF-8.
pub open spec fn utf8_len(c: char) -> int {
    if (c as int) < 0x80 {
        1
    } else if (c as int) < 0x800 {
        2
    } else if (c as int) < 0x10000 {
        3
    } else {
        4
    }
}

/// The glyph for `c`.
pub fn glyph_of(c: char) -> (g: u32)
    ensures
        g == glyph_index(c),
        g < 96,
{
    let u = c as u32;
    if u >= 32 && u <= 127 {
        u - 32
    } else {
        95
    }
}

/// The trim of glyph `g`.
pub fn kern_of(g: u32) -> (k: i128)
    requires
        g < 96,
    ensures
        k == kern_table()[g as int],
        0 <= k <= 4,
{
    match g {
        0 | 14 => 4,
        1 | 7 | 12 | 26 | 27 | 73 | 76 | 92 => 3,
        2 | 8 | 9 | 59 | 61 | 64 => 2,
        10 | 11 | 13 | 63 => 1,
        _ => 0,
    }
}

/// The drop of glyph `g`.
pub fn y_offset_of(g: u32) -> (d: i128)
    requires
        g < 96,
    ensures
        d == y_offset_table()[g as int],
        0 <= d <= 3,
{
    match g {
        71 | 74 | 80 | 81 | 89 => 3,
        _ => 0,
    }
}

/// The number of bytes that `c` takes in UTF-8.
pub fn utf8_len_of(c: char) -> (n: i128)
    ensures
        n == utf8_len(c),
{
    let u = c as u32;
    if u < 0x80 {
        1
    } else if u < 0x800 {
        2
    } else if u < 0x10000 {
        3
    } else {
        4
    }
}

/// Every glyph is trimmed by 0 to 4 pixels and dropped by 0 to 3.
pub proof fn lemma_glyph_bounds(c: char)
    ensures
        glyph_index(c) < 96,
        0 <= kern(c) <= 4,
        0 <= y_offset(c) <= 3,
        4 <= advance(c) <= 12,
        1 <= utf8_len(c) <= 4,
{
    let g = glyph_index(c);
    assert(0 <= kern_table()[g as int] <= 4);
    assert(0 <= y_offset_table()[g as int] <= 3);
}

} // verus!
