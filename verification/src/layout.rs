use vstd::prelude::*;

use crate::chars::chars_of;
use crate::font::{
    advance, glyph_index, glyph_of, kern, kern_of, y_offset, y_offset_of, GLYPH_WIDTH,
    SHEET_COLUMNS,
};

verus! {

/// Where one glyph of a text is drawn: the top-left corner of its screen
/// rectangle (which is `12 * scale` by `16 * scale` pixels) and the cell of
/// the font sheet it is taken from.
#[derive(Clone, Copy, Debug, PartialEq, Eq, Structural)]
pub struct GlyphQuad {
    pub x: i128,
    pub y: i128,
    pub column: u32,
    pub row: u32,
}

/// The abstract placement of a glyph.
pub struct QuadModel {
    pub x: int,
    pub y: int,
    pub column: nat,
    pub row: nat,
}

impl View for GlyphQuad {
    type V = QuadModel;

    open spec fn view(&self) -> QuadModel {
        QuadModel { x: self.x as int, y: self.y as int, column: self.column as nat, row: self.row as nat }
    }
}

/// Integer division that rounds toward zero, as Rust's `/` does (for `b > 0`).
pub open spec fn trunc_div(a: int, b: int) -> int {
    if a >= 0 {
        a / b
    } else {
        -((-a) / b)
    }
}

/// The total trim of the characters of `t`.
pub open spec fn kern_sum(t: Seq<char>) -> int
    decreases t.len(),
{
    if t.len() == 0 {
        0
    } else {
        kern_sum(t.drop_last()) + kern(t.last())
    }
}

/// How many font pixels `t` takes on a line: each glyph's cell, trimmed on
/// both sides.
pub open spec fn text_width(t: Seq<char>) -> int {
    GLYPH_WIDTH * t.len() - 2 * kern_sum(t)
}

/// The sheet cell of the glyph for `c`.
pub open spec fn cell_of(c: char, x: int, y: int) -> QuadModel {
    QuadModel {
        x,
        y,
        column: glyph_index(c) % (SHEET_COLUMNS as nat),
        row: glyph_index(c) / (SHEET_COLUMNS as nat),
    }
}

/// Where glyph `i` of `t` goes when `t` is drawn on one line starting at
/// `(x, y)`: each glyph is placed one cell further right, pulled back by its
/// own trim and by twice the trims of the glyphs before it, and dropped by its
/// descent; offsets are in font pixels, multiplied by `scale`.
pub open spec fn line_quad(t: Seq<char>, i: int, x: int, y: int, scale: int) -> QuadModel {
    let c = t[i];
    cell_of(
        c,
        x + (GLYPH_WIDTH * i - kern(c) - 2 * kern_sum(t.take(i))) * scale,
        y + y_offset(c) * scale,
    )
}

/// The left edge at which a text is drawn so that it is centred on `x`.
pub open spec fn centred_left(t: Seq<char>, x: int, scale: int) -> int {
    x - trunc_div(text_width(t) * scale, 2)
}

/// The left edge at which a text is drawn so that it ends at `x`.
pub open spec fn right_aligned_left(t: Seq<char>, x: int, scale: int) -> int {
    x - text_width(t) * scale
}

/// Bounds on the total trim.
pub proof fn lemma_kern_sum_bounds(t: Seq<char>)
    ensures
        0 <= kern_sum(t) <= 4 * t.len(),
    decreases t.len(),
{
    if t.len() > 0 {
        lemma_kern_sum_bounds(t.drop_last());
        crate::font::lemma_glyph_bounds(t.last());
    }
}

/// The total trim of two texts put together is the sum of their trims.
pub proof fn lemma_kern_sum_concat(a: Seq<char>, b: Seq<char>)
    ensures
        kern_sum(a + b) == kern_sum(a) + kern_sum(b),
    decreases b.len(),
{
    if b.len() == 0 {
        assert(a + b == a);
    } else {
        lemma_kern_sum_concat(a, b.drop_last());
        assert((a + b).drop_last() == a + b.drop_last());
        assert((a + b).last() == b.last());
    }
}

/// The width of two texts put together is the sum of their widths.
pub proof fn lemma_text_width_concat(a: Seq<char>, b: Seq<char>)
    ensures
        text_width(a + b) == text_width(a) + text_width(b),
{
    lemma_kern_sum_concat(a, b);
}

/// Bounds on a text's width: each character takes 4 to 12 pixels.
pub proof fn lemma_text_width_bounds(t: Seq<char>)
    ensures
        4 * t.len() <= text_width(t) <= 12 * t.len(),
{
    lemma_kern_sum_bounds(t);
}

/// Drawn on one line, a non-empty text spans exactly its width (times the
/// scale) from the left edge of its first glyph's trimmed cell to the right
/// edge of its last glyph's trimmed cell, and the first trimmed cell starts at
/// the given `x`.
pub proof fn lemma_line_spans_width(t: Seq<char>, x: int, y: int, scale: int)
    requires
        t.len() > 0,
    ensures
        line_quad(t, 0, x, y, scale).x + kern(t[0]) * scale == x,
        line_quad(t, t.len() - 1, x, y, scale).x + (GLYPH_WIDTH - kern(t.last())) * scale
            - (line_quad(t, 0, x, y, scale).x + kern(t[0]) * scale) == text_width(t) * scale,
{
    let n = t.len() - 1;
    assert(t.take(0) == Seq::<char>::empty());
    assert(t.take(n as int + 1) == t);
    assert(t.take(n as int + 1).drop_last() == t.take(n as int));
    let k = kern_sum(t.take(n as int));
    assert(kern_sum(t) == k + kern(t.last()));
    assert((GLYPH_WIDTH * n - kern(t[n as int]) - 2 * k) * scale + (GLYPH_WIDTH - kern(t.last())) * scale
        == (GLYPH_WIDTH * (n + 1) - 2 * (k + kern(t.last()))) * scale) by (nonlinear_arith)
        requires t[n as int] == t.last();
    assert((0 - kern(t[0]) - 2 * 0) * scale + kern(t[0]) * scale == 0) by (nonlinear_arith);
}

/// `|a * s|` stays within `2^31` times the bound on `|a|`.
pub(crate) proof fn lemma_scaled_bound(a: int, bound: int, s: int)
    requires
        -bound <= a <= bound,
        0 < s <= 0x7fff_ffff,
    ensures
        -bound * 0x8000_0000 <= a * s <= bound * 0x8000_0000,
{
    assert(-bound * 0x8000_0000 <= a * s <= bound * 0x8000_0000) by (nonlinear_arith)
        requires -bound <= a <= bound, 0 < s <= 0x7fff_ffff;
}

/// The placements of the glyphs of `t` drawn on one line from `(x, y)`.
fn layout_line_at(t: &Vec<char>, x: i128, y: i128, scale: i128) -> (r: Vec<GlyphQuad>)
    requires
        -0x1_0000_0000_0000_0000_0000_0000_0000 <= x <= 0x1_0000_0000_0000_0000_0000_0000_0000,
        -0x1_0000_0000 <= y <= 0x1_0000_0000,
        0 < scale <= 0x7fff_ffff,
    ensures
        r@.len() == t@.len(),
        forall|i: int| 0 <= i < t@.len() ==> (#[trigger] r@[i])@ == line_quad(t@, i, x as int, y as int, scale as int),
{
    let mut r: Vec<GlyphQuad> = Vec::new();
    let mut back_off: i128 = 0;
    let mut i: usize = 0;
    while i < t.len()
        invariant
            i <= t@.len(),
            -0x1_0000_0000_0000_0000_0000_0000_0000 <= x <= 0x1_0000_0000_0000_0000_0000_0000_0000,
            -0x1_0000_0000 <= y <= 0x1_0000_0000,
            0 < scale <= 0x7fff_ffff,
            r@.len() == i,
            back_off == 2 * kern_sum(t@.take(i as int)),
            forall|j: int| 0 <= j < i ==> (#[trigger] r@[j])@ == line_quad(t@, j, x as int, y as int, scale as int),
        decreases t@.len() - i,
    {
        let c = t[i];
        let g = glyph_of(c);
        let k = kern_of(g);
        let d = y_offset_of(g);
        proof {
            lemma_kern_sum_bounds(t@.take(i as int));
            lemma_scaled_bound(GLYPH_WIDTH * i - k - back_off, 0x1_0000_0000_0000_0000_0000, scale as int);
            lemma_scaled_bound(d as int, 3, scale as int);
        }
        let off: i128 = 12 * (i as i128) - k - back_off;
        let q = GlyphQuad { x: x + off * scale, y: y + d * scale, column: g % 16, row: g / 16 };
        assert(t@.take(i + 1).drop_last() == t@.take(i as int));
        assert(t@.take(i + 1).last() == c);
        r.push(q);
        back_off = back_off + 2 * k;
        i = i + 1;
    }
    r
}

/// Places the glyphs of `text` on one line whose first glyph starts at
/// `(x, y)`, each scaled by `scale`; nothing is drawn for a scale below 1.
pub fn layout_text(text: &str, x: i32, y: i32, scale: i32) -> (r: Vec<GlyphQuad>)
    ensures
        scale <= 0 ==> r@.len() == 0,
        scale > 0 ==> r@.len() == text@.len(),
        scale > 0 ==> forall|i: int|
            0 <= i < text@.len() ==> (#[trigger] r@[i])@ == line_quad(text@, i, x as int, y as int, scale as int),
{
    if scale <= 0 {
        return Vec::new();
    }
    let t = chars_of(text);
    layout_line_at(&t, x as i128, y as i128, scale as i128)
}

/// The width of `t` in font pixels.
pub(crate) fn width_of(t: &Vec<char>) -> (w: i128)
    ensures
        w == text_width(t@),
        0 <= w <= 12 * t@.len(),
{
    let mut ksum: i128 = 0;
    let mut i: usize = 0;
    while i < t.len()
        invariant
            i <= t@.len(),
            ksum == kern_sum(t@.take(i as int)),
        decreases t@.len() - i,
    {
        proof {
            lemma_kern_sum_bounds(t@.take(i as int));
        }
        let k = kern_of(glyph_of(t[i]));
        assert(t@.take(i + 1).drop_last() == t@.take(i as int));
        ksum = ksum + k;
        i = i + 1;
    }
    assert(t@.take(t@.len() as int) == t@);
    proof {
        lemma_text_width_bounds(t@);
    }
    12 * (t.len() as i128) - 2 * ksum
}

/// The width of `text` in font pixels (before scaling).
pub fn text_width_of(text: &str) -> (w: i128)
    ensures
        w == text_width(text@),
{
    let t = chars_of(text);
    width_of(&t)
}

/// Places the glyphs of `text` on one line centred on `x`: the line starts half
/// its scaled width (rounded toward zero) left of `x`. Nothing is drawn for a
/// scale below 1.
pub fn layout_text_centered(text: &str, x: i32, y: i32, scale: i32) -> (r: Vec<GlyphQuad>)
    ensures
        scale <= 0 ==> r@.len() == 0,
        scale > 0 ==> r@.len() == text@.len(),
        scale > 0 ==> forall|i: int|
            0 <= i < text@.len() ==> (#[trigger] r@[i])@ == line_quad(
                text@,
                i,
                centred_left(text@, x as int, scale as int),
                y as int,
                scale as int,
            ),
{
    if scale <= 0 {
        return Vec::new();
    }
    let t = chars_of(text);
    let w = width_of(&t);
    let n = t.len();
    proof {
        lemma_scaled_bound(w as int, 0x1_0000_0000_0000_0000_0000, scale as int);
    }
    let left: i128 = (x as i128) - (w * (scale as i128)) / 2;
    layout_line_at(&t, left, y as i128, scale as i128)
}

/// Places the glyphs of `text` on one line that ends at `x`: the line starts
/// its whole scaled width left of `x`. Nothing is drawn for a scale below 1.
pub fn layout_text_right(text: &str, x: i32, y: i32, scale: i32) -> (r: Vec<GlyphQuad>)
    ensures
        scale <= 0 ==> r@.len() == 0,
        scale > 0 ==> r@.len() == text@.len(),
        scale > 0 ==> forall|i: int|
            0 <= i < text@.len() ==> (#[trigger] r@[i])@ == line_quad(
                text@,
                i,
                right_aligned_left(text@, x as int, scale as int),
                y as int,
                scale as int,
            ),
{
    if scale <= 0 {
        return Vec::new();
    }
    let t = chars_of(text);
    let w = width_of(&t);
    let n = t.len();
    proof {
        lemma_scaled_bound(w as int, 0x1_0000_0000_0000_0000_0000, scale as int);
    }
    let left: i128 = (x as i128) - w * (scale as i128);
    layout_line_at(&t, left, y as i128, scale as i128)
}

} // verus!
