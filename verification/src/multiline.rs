use vstd::prelude::*;

use crate::chars::{chars_of, split_chars, split_on, views};
use crate::font::{glyph_of, kern, kern_of, utf8_len, utf8_len_of, y_offset, y_offset_of, GLYPH_WIDTH};
use crate::layout::{cell_of, kern_sum, lemma_scaled_bound, text_width, trunc_div, width_of, GlyphQuad, QuadModel};

verus! {

/// The gap, in font pixels, that a space leaves between two words.
pub const WORD_GAP: i128 = 4;

/// The distance, in font pixels, from one line of a block to the next.
pub const LINE_HEIGHT: i128 = 18;

/// The number of bytes that `w` takes in UTF-8.
pub open spec fn word_bytes(w: Seq<char>) -> int
    decreases w.len(),
{
    if w.len() == 0 {
        0
    } else {
        word_bytes(w.drop_last()) + utf8_len(w.last())
    }
}

/// The sum of the numbers in `s`.
pub open spec fn seq_sum(s: Seq<int>) -> int
    decreases s.len(),
{
    if s.len() == 0 {
        0
    } else {
        seq_sum(s.drop_last()) + s.last()
    }
}

/// The number of characters of the pieces, counting one more for each piece
/// (the separator that follows it).
pub open spec fn parts_size(ps: Seq<Seq<char>>) -> int
    decreases ps.len(),
{
    if ps.len() == 0 {
        0
    } else {
        parts_size(ps.drop_last()) + ps.last().len() + 1
    }
}

/// The state of breaking a block of words into lines: how far the current line
/// already reaches, and for each line so far its length (in bytes of the text,
/// each word counted with the space after it) and its width.
pub struct LineBreaks {
    pub line_width: int,
    pub lines: Seq<int>,
    pub widths: Seq<int>,
}

/// No words placed yet: one empty line.
pub open spec fn break_start() -> LineBreaks {
    LineBreaks { line_width: 0, lines: seq![0], widths: seq![0] }
}

/// Places word `w`: it stays on the current line when the line, with the word
/// added, is still narrower than `limit`; otherwise it starts a new line, and
/// the current line loses the gap after its last word.
pub open spec fn break_step(st: LineBreaks, w: Seq<char>, limit: int) -> LineBreaks {
    let ww = text_width(w);
    let wb = word_bytes(w);
    let last = st.lines.len() - 1;
    let wlast = st.widths.len() - 1;
    if st.line_width + ww < limit {
        LineBreaks {
            line_width: st.line_width + ww + WORD_GAP,
            lines: st.lines.update(last, st.lines[last] + wb + 1),
            widths: st.widths.update(wlast, st.widths[wlast] + ww + WORD_GAP),
        }
    } else {
        LineBreaks {
            line_width: ww + WORD_GAP,
            lines: st.lines.push(wb + 1),
            widths: st.widths.update(wlast, st.widths[wlast] - WORD_GAP).push(ww + WORD_GAP),
        }
    }
}

/// Places the words one after another.
pub open spec fn break_words(words: Seq<Seq<char>>, limit: int) -> LineBreaks
    decreases words.len(),
{
    if words.len() == 0 {
        break_start()
    } else {
        break_step(break_words(words.drop_last(), limit), words.last(), limit)
    }
}

/// The lines of `t` drawn in a box `w` pixels wide at scale `scale`: the words
/// (the pieces between spaces) are broken into lines that stay narrower than
/// `w / scale` font pixels, and the last line loses the gap after its last word.
pub open spec fn line_layout(t: Seq<char>, w: int, scale: int) -> LineBreaks {
    let b = break_words(split_on(t, ' '), trunc_div(w, scale));
    let wlast = b.widths.len() - 1;
    LineBreaks {
        line_width: b.line_width,
        lines: b.lines,
        widths: b.widths.update(wlast, b.widths[wlast] - WORD_GAP),
    }
}

/// Where the drawing stands when it reaches a character: the trim pulled back
/// so far on the current line, the current line, and the index of the
/// character at which that line starts.
pub struct LineCursor {
    pub back_off: int,
    pub line: int,
    pub line_start: int,
}

/// Before drawing character `i`: when the current line's length is used up,
/// move to the next line.
pub open spec fn enter_line(c: LineCursor, lines: Seq<int>, i: int) -> LineCursor {
    if i - c.line_start >= lines[c.line] {
        LineCursor { back_off: 0, line: c.line + 1, line_start: c.line_start + lines[c.line] }
    } else {
        c
    }
}

/// The cursor as it stands before character `i` is considered.
pub open spec fn cursor_before(t: Seq<char>, lines: Seq<int>, i: nat) -> LineCursor
    decreases i,
{
    if i == 0 {
        LineCursor { back_off: 0, line: 0, line_start: 0 }
    } else {
        let c = enter_line(cursor_before(t, lines, (i - 1) as nat), lines, i - 1);
        LineCursor { back_off: c.back_off + 2 * kern(t[i - 1]), line: c.line, line_start: c.line_start }
    }
}

/// The cursor with which character `i` is drawn.
pub open spec fn glyph_cursor(t: Seq<char>, lines: Seq<int>, i: nat) -> LineCursor {
    enter_line(cursor_before(t, lines, i), lines, i as int)
}

/// Where glyph `i` of `t` goes when `t` is drawn as a block of lines in a box
/// `w` pixels wide whose top-left corner is `(x, y)`: each line is centred in
/// the box, and the block of lines is centred vertically on `y`.
pub open spec fn multiline_quad(t: Seq<char>, i: int, x: int, y: int, w: int, scale: int) -> QuadModel {
    let lb = line_layout(t, w, scale);
    let c = glyph_cursor(t, lb.lines, i as nat);
    let ch = t[i];
    cell_of(
        ch,
        x + ((i - c.line_start) * GLYPH_WIDTH - kern(ch) - c.back_off - trunc_div(lb.widths[c.line], 2))
            * scale + trunc_div(w, 2),
        y + (y_offset(ch) + c.line * LINE_HEIGHT - lb.lines.len() * (LINE_HEIGHT / 2)) * scale,
    )
}

/// A word takes at least one and at most four bytes per character.
pub proof fn lemma_word_bytes_bounds(w: Seq<char>)
    ensures
        w.len() <= word_bytes(w) <= 4 * w.len(),
    decreases w.len(),
{
    if w.len() > 0 {
        lemma_word_bytes_bounds(w.drop_last());
        crate::font::lemma_glyph_bounds(w.last());
    }
}

/// Splitting a text gives pieces whose sizes add up to one more than the
/// text's length.
pub proof fn lemma_split_size(s: Seq<char>, sep: char)
    ensures
        parts_size(split_on(s, sep)) == s.len() + 1,
    decreases s.len(),
{
    if s.len() == 0 {
        let e = Seq::<char>::empty();
        assert(split_on(s, sep) == seq![e]);
        assert(seq![e].drop_last() == Seq::<Seq<char>>::empty());
        assert(seq![e].last() == e);
        assert(parts_size(Seq::<Seq<char>>::empty()) == 0);
    } else {
        let r = split_on(s.drop_last(), sep);
        lemma_split_size(s.drop_last(), sep);
        crate::chars::lemma_split_nonempty(s.drop_last(), sep);
        if s.last() != sep {
            let u = r.update(r.len() - 1, r.last().push(s.last()));
            assert(u.drop_last() == r.drop_last());
            assert(u.last() == r.last().push(s.last()));
            assert(split_on(s, sep) == u);
            assert(parts_size(u) == parts_size(r.drop_last()) + r.last().len() + 2);
        } else {
            assert(r.push(Seq::<char>::empty()).drop_last() == r);
            assert(split_on(s, sep) == r.push(Seq::<char>::empty()));
        }
    }
}

/// A prefix of the pieces is no larger than all of them.
pub proof fn lemma_parts_size_prefix(ps: Seq<Seq<char>>, k: int)
    requires
        0 <= k <= ps.len(),
    ensures
        0 <= parts_size(ps.take(k)) <= parts_size(ps),
        k <= parts_size(ps.take(k)),
    decreases ps.len(),
{
    if k == ps.len() {
        assert(ps.take(k) == ps);
        if k > 0 {
            lemma_parts_size_prefix(ps.drop_last(), k - 1);
            assert(ps.drop_last().take(k - 1) == ps.drop_last());
        }
    } else {
        lemma_parts_size_prefix(ps.drop_last(), k);
        assert(ps.drop_last().take(k) == ps.take(k));
        lemma_parts_size_prefix(ps.drop_last(), ps.len() - 1);
        assert(ps.drop_last().take(ps.len() - 1) == ps.drop_last());
    }
}

/// The sum of a prefix grows by the next element.
proof fn lemma_prefix_sum_step(s: Seq<int>, k: int)
    requires
        0 <= k < s.len(),
    ensures
        seq_sum(s.take(k + 1)) == seq_sum(s.take(k)) + s[k],
{
    assert(s.take(k + 1).drop_last() == s.take(k));
}

/// What breaking words into lines keeps: there are as many widths as lines;
/// every line after the first holds at least one byte; the line lengths add
/// up to the bytes of the words plus one per word, which is at least the size
/// of the words; and every quantity stays within a fixed multiple of that size.
pub proof fn lemma_break_props(words: Seq<Seq<char>>, limit: int)
    ensures
        ({
            let b = break_words(words, limit);
            let a = parts_size(words);
            &&& b.lines.len() == b.widths.len()
            &&& 1 <= b.lines.len() <= words.len() + 1
            &&& forall|k: int| 1 <= k < b.lines.len() ==> 1 <= #[trigger] b.lines[k]
            &&& forall|k: int| 0 <= k < b.lines.len() ==> 0 <= #[trigger] b.lines[k] <= 5 * a
            &&& seq_sum(b.lines) >= a
            &&& 0 <= b.line_width <= 16 * a
            &&& 0 <= b.widths.last()
            &&& forall|k: int| 0 <= k < b.widths.len() ==> -WORD_GAP <= #[trigger] b.widths[k] <= 16 * a
        }),
        words.len() <= parts_size(words),
    decreases words.len(),
{
    if words.len() > 0 {
        let ws = words.drop_last();
        let w = words.last();
        lemma_break_props(ws, limit);
        crate::layout::lemma_text_width_bounds(w);
        lemma_word_bytes_bounds(w);
        let st = break_words(ws, limit);
        let b = break_words(words, limit);
        let a = parts_size(ws);
        let a2 = parts_size(words);
        assert(a2 == a + w.len() + 1);
        let last = st.lines.len() - 1;
        if st.line_width + text_width(w) < limit {
            assert(b.lines == st.lines.update(last, st.lines[last] + word_bytes(w) + 1));
            assert(b.lines.drop_last() == st.lines.drop_last());
            assert(b.lines.last() == st.lines.last() + word_bytes(w) + 1);
            assert(seq_sum(b.lines) == seq_sum(st.lines) + word_bytes(w) + 1);
            assert forall|k: int| 0 <= k < b.widths.len() implies -WORD_GAP <= #[trigger] b.widths[k] <= 16 * a2 by {
                if k == last {
                    assert(st.widths[k] == st.widths.last());
                }
            }
        } else {
            assert(b.lines == st.lines.push(word_bytes(w) + 1));
            assert(b.lines.drop_last() == st.lines);
            assert(seq_sum(b.lines) == seq_sum(st.lines) + word_bytes(w) + 1);
            assert forall|k: int| 0 <= k < b.widths.len() implies -WORD_GAP <= #[trigger] b.widths[k] <= 16 * a2 by {
                if k == last {
                    assert(st.widths[k] == st.widths.last());
                }
            }
        }
    } else {
        let b = break_start();
        assert(b.lines.drop_last() == Seq::<int>::empty());
        assert(seq_sum(Seq::<int>::empty()) == 0);
        assert(seq_sum(b.lines) == 0);
    }
}

/// While words are placed, the running width of the current line is the width
/// recorded for the last line.
proof fn lemma_line_width_is_last(words: Seq<Seq<char>>, limit: int)
    ensures
        break_words(words, limit).lines.len() >= 1,
        break_words(words, limit).widths.len() >= 1,
        break_words(words, limit).line_width == break_words(words, limit).widths.last(),
    decreases words.len(),
{
    if words.len() > 0 {
        lemma_line_width_is_last(words.drop_last(), limit);
    }
}

/// Word `j` of a block starts a new line exactly when the line it would join
/// (as wide as the words on it so far, with a gap after each) would, with the
/// word added, be `limit` or more wide; otherwise it joins that line.
pub proof fn lemma_word_wraps(words: Seq<Seq<char>>, limit: int, j: int)
    requires
        0 <= j < words.len(),
    ensures
        ({
            let before = break_words(words.take(j), limit);
            let after = break_words(words.take(j + 1), limit);
            &&& before.line_width == before.widths.last()
            &&& before.widths.last() + text_width(words[j]) >= limit ==> after.lines.len() == before.lines.len() + 1
                && after.line_width == text_width(words[j]) + WORD_GAP
            &&& before.widths.last() + text_width(words[j]) < limit ==> after.lines.len() == before.lines.len()
                && after.line_width == before.line_width + text_width(words[j]) + WORD_GAP
        }),
{
    lemma_line_width_is_last(words.take(j), limit);
    assert(words.take(j + 1).drop_last() == words.take(j));
    assert(words.take(j + 1).last() == words[j]);
}

/// Where each character is drawn: on a line that exists, whose start is the
/// total length of the lines before it, and within that line's length; the
/// trim pulled back on the line is at most eight pixels per character drawn
/// on it so far. This holds when the line lengths add up to more than the
/// number of characters and every line after the first holds something.
pub proof fn lemma_cursor_in_line(t: Seq<char>, lines: Seq<int>, i: nat)
    requires
        i <= t.len(),
        lines.len() >= 1,
        forall|k: int| 0 <= k < lines.len() ==> 0 <= #[trigger] lines[k],
        forall|k: int| 1 <= k < lines.len() ==> 1 <= #[trigger] lines[k],
        seq_sum(lines) >= t.len() + 1,
    ensures
        ({
            let c = cursor_before(t, lines, i);
            &&& 0 <= c.line < lines.len()
            &&& c.line_start == seq_sum(lines.take(c.line))
            &&& 0 <= c.line_start <= i <= c.line_start + lines[c.line]
            &&& 0 <= c.back_off <= 8 * (i - c.line_start)
            &&& c.back_off == 2 * kern_sum(t.subrange(c.line_start, i as int))
        }),
        i < t.len() ==> ({
            let c = glyph_cursor(t, lines, i);
            &&& 0 <= c.line < lines.len()
            &&& c.line_start == seq_sum(lines.take(c.line))
            &&& c.line_start <= i < c.line_start + lines[c.line]
            &&& 0 <= c.back_off <= 8 * (i - c.line_start)
            &&& c.back_off == 2 * kern_sum(t.subrange(c.line_start, i as int))
        }),
    decreases i,
{
    if i > 0 {
        lemma_cursor_in_line(t, lines, (i - 1) as nat);
        crate::font::lemma_glyph_bounds(t[i - 1]);
        let p = cursor_before(t, lines, (i - 1) as nat);
        let c = enter_line(p, lines, i - 1);
        let s = t.subrange(c.line_start, i as int);
        assert(s.drop_last() == t.subrange(c.line_start, i - 1));
        assert(s.last() == t[i - 1]);
        if c.line_start == i - 1 {
            assert(t.subrange(c.line_start, i - 1) == Seq::<char>::empty());
        }
    } else {
        assert(lines.take(0) == Seq::<int>::empty());
        assert(t.subrange(0, 0) == Seq::<char>::empty());
    }
    if i < t.len() {
        let c = cursor_before(t, lines, i);
        assert(t.subrange(i as int, i as int) == Seq::<char>::empty());
        if i - c.line_start >= lines[c.line] {
            lemma_prefix_sum_step(lines, c.line);
            if c.line + 1 == lines.len() {
                assert(lines.take(lines.len() as int) == lines);
                assert(false);
            }
        }
    }
}

/// Every character of a block is drawn on a line that the block has: the
/// line's start is the total length of the lines before it, and the character
/// lies within that line's length. The block has a width for every line.
pub proof fn lemma_block_glyphs_on_lines(t: Seq<char>, w: int, scale: int, i: int)
    requires
        0 <= i < t.len(),
    ensures
        ({
            let lb = line_layout(t, w, scale);
            let c = glyph_cursor(t, lb.lines, i as nat);
            &&& lb.lines.len() == lb.widths.len()
            &&& 0 <= c.line < lb.lines.len()
            &&& c.line_start == seq_sum(lb.lines.take(c.line))
            &&& c.line_start <= i < c.line_start + lb.lines[c.line]
        }),
{
    let words = split_on(t, ' ');
    lemma_split_size(t, ' ');
    lemma_break_props(words, trunc_div(w, scale));
    lemma_cursor_in_line(t, line_layout(t, w, scale).lines, i as nat);
}

/// Sums of longer prefixes of non-negative numbers are no smaller.
proof fn lemma_prefix_sum_monotone(s: Seq<int>, a: int, b: int)
    requires
        0 <= a <= b <= s.len(),
        forall|k: int| 0 <= k < s.len() ==> 0 <= #[trigger] s[k],
    ensures
        seq_sum(s.take(a)) <= seq_sum(s.take(b)),
    decreases b - a,
{
    if a < b {
        lemma_prefix_sum_monotone(s, a, b - 1);
        lemma_prefix_sum_step(s, b - 1);
    }
}

/// Where glyph `i` of a block is drawn, said without the drawing's running
/// cursor. Its line `k` is the one whose span of the text holds `i`: from the
/// lengths of the lines before it added up to that sum plus its own length.
/// It is drawn `k` line heights below the block's top edge, which lies half
/// the block's height above `y`; across, it stands at the box's centre, less
/// half its line's width, plus its column on the line in cells, pulled back by
/// its own trim and by twice the trims of the characters before it on the line.
pub proof fn lemma_multiline_quad_direct(t: Seq<char>, i: int, x: int, y: int, w: int, scale: int)
    requires
        0 <= i < t.len(),
    ensures
        ({
            let lb = line_layout(t, w, scale);
            &&& exists|k: int|
                0 <= k < lb.lines.len() && #[trigger] seq_sum(lb.lines.take(k)) <= i < seq_sum(
                    lb.lines.take(k + 1),
                )
            &&& forall|k: int|
                0 <= k < lb.lines.len() && #[trigger] seq_sum(lb.lines.take(k)) <= i < seq_sum(
                    lb.lines.take(k + 1),
                ) ==> multiline_quad(t, i, x, y, w, scale) == cell_of(
                    t[i],
                    x + ((i - seq_sum(lb.lines.take(k))) * GLYPH_WIDTH - kern(t[i]) - 2 * kern_sum(
                        t.subrange(seq_sum(lb.lines.take(k)), i),
                    ) - trunc_div(lb.widths[k], 2)) * scale + trunc_div(w, 2),
                    y + (y_offset(t[i]) + k * LINE_HEIGHT - lb.lines.len() * (LINE_HEIGHT / 2)) * scale,
                )
        }),
{
    let lb = line_layout(t, w, scale);
    let lines = lb.lines;
    lemma_split_size(t, ' ');
    lemma_break_props(split_on(t, ' '), trunc_div(w, scale));
    lemma_cursor_in_line(t, lines, i as nat);
    let c = glyph_cursor(t, lines, i as nat);
    lemma_prefix_sum_step(lines, c.line);
    assert(seq_sum(lines.take(c.line)) <= i < seq_sum(lines.take(c.line + 1)));
    assert forall|k: int|
        0 <= k < lines.len() && #[trigger] seq_sum(lines.take(k)) <= i < seq_sum(lines.take(k + 1)) implies k
        == c.line by {
        if k < c.line {
            lemma_prefix_sum_monotone(lines, k + 1, c.line);
        } else if k > c.line {
            lemma_prefix_sum_monotone(lines, c.line + 1, k);
        }
    }
}

/// A list of numbers, as integers.
pub open spec fn ints(s: Seq<i128>) -> Seq<int> {
    s.map_values(|v: i128| v as int)
}

/// The number of bytes that `w` takes in UTF-8.
fn bytes_of(w: &Vec<char>) -> (n: i128)
    ensures
        n == word_bytes(w@),
{
    let mut n: i128 = 0;
    let mut i: usize = 0;
    while i < w.len()
        invariant
            i <= w@.len(),
            n == word_bytes(w@.take(i as int)),
            n <= 4 * i,
        decreases w@.len() - i,
    {
        proof {
            lemma_word_bytes_bounds(w@.take(i as int));
        }
        assert(w@.take(i + 1).drop_last() == w@.take(i as int));
        n = n + utf8_len_of(w[i]);
        i = i + 1;
    }
    assert(w@.take(w@.len() as int) == w@);
    n
}

/// Places the glyphs of `text` as a block of lines in a box `w` pixels wide
/// whose left edge is `x` and whose vertical centre is `y`, each glyph scaled
/// by `scale`: words are wrapped onto new lines as `line_layout` says, each
/// line is centred horizontally in the box, and the block is centred
/// vertically. Nothing is drawn for a scale below 1.
pub fn layout_multiline(text: &str, x: i32, y: i32, w: i32, scale: i32) -> (r: Vec<GlyphQuad>)
    ensures
        scale <= 0 ==> r@.len() == 0,
        scale > 0 ==> r@.len() == text@.len(),
        scale > 0 ==> forall|i: int|
            0 <= i < text@.len() ==> (#[trigger] r@[i])@ == multiline_quad(
                text@,
                i,
                x as int,
                y as int,
                w as int,
                scale as int,
            ),
{
    if scale <= 0 {
        return Vec::new();
    }
    let t = chars_of(text);
    let n = t.len();
    let words = split_chars(&t, ' ');
    let ghost ws = split_on(t@, ' ');
    assert(views(words@) == ws);
    assert(words@.len() == ws.len());
    assert(forall|k: int| 0 <= k < words@.len() ==> #[trigger] words@[k]@ == ws[k]);
    proof {
        lemma_split_size(t@, ' ');
    }
    let limit: i128 = (w / scale) as i128;
    assert(limit == trunc_div(w as int, scale as int));
    let mut line_width: i128 = 0;
    let mut lines: Vec<i128> = vec![0];
    let mut widths: Vec<i128> = vec![0];
    assert(ws.take(0) == Seq::<Seq<char>>::empty());
    assert(ints(lines@) == seq![0int]);
    assert(ints(widths@) == seq![0int]);
    let mut k: usize = 0;
    while k < words.len()
        invariant
            k <= words@.len(),
            words@.len() == ws.len(),
            forall|j: int| 0 <= j < words@.len() ==> #[trigger] words@[j]@ == ws[j],
            parts_size(ws) == n + 1,
            n == t@.len(),
            n <= usize::MAX,
            limit == trunc_div(w as int, scale as int),
            -0x8000_0000 <= limit <= 0x8000_0000,
            ({
                let b = break_words(ws.take(k as int), limit as int);
                &&& b.line_width == line_width
                &&& b.lines == ints(lines@)
                &&& b.widths == ints(widths@)
            }),
        decreases words@.len() - k,
    {
        let ghost before = ws.take(k as int);
        proof {
            lemma_break_props(before, limit as int);
            lemma_parts_size_prefix(ws, k as int);
            lemma_parts_size_prefix(ws, k + 1);
            assert(ws.take(k + 1).drop_last() == before);
            assert(ws.take(k + 1).last() == ws[k as int]);
            crate::layout::lemma_text_width_bounds(ws[k as int]);
            lemma_word_bytes_bounds(ws[k as int]);
            assert(ws.take(k + 1).last().len() <= parts_size(ws.take(k + 1)));
        }
        let ww = width_of(&words[k]);
        let wb = bytes_of(&words[k]);
        let last = lines.len() - 1;
        let wlast = widths.len() - 1;
        assert(ints(lines@)[last as int] == lines@[last as int] as int);
        assert(ints(widths@)[wlast as int] == widths@[wlast as int] as int);
        if line_width + ww < limit {
            line_width = line_width + ww + WORD_GAP;
            let v = lines[last];
            let ghost l0 = lines@;
            lines.set(last, v + wb + 1);
            assert(ints(lines@) =~= ints(l0).update(last as int, v + wb + 1));
            let u = widths[wlast];
            let ghost w0 = widths@;
            widths.set(wlast, u + ww + WORD_GAP);
            assert(ints(widths@) =~= ints(w0).update(wlast as int, u + ww + WORD_GAP));
        } else {
            line_width = ww + WORD_GAP;
            let ghost l0 = lines@;
            lines.push(wb + 1);
            assert(ints(lines@) =~= ints(l0).push(wb + 1));
            let u = widths[wlast];
            let ghost w0 = widths@;
            widths.set(wlast, u - WORD_GAP);
            widths.push(ww + WORD_GAP);
            assert(ints(widths@) =~= ints(w0).update(wlast as int, u - WORD_GAP).push(ww + WORD_GAP));
        }
        k = k + 1;
    }
    assert(ws.take(words@.len() as int) == ws);
    proof {
        lemma_break_props(ws, limit as int);
    }
    let wlast = widths.len() - 1;
    let u = widths[wlast];
    assert(ints(widths@)[wlast as int] == u as int);
    let ghost w0 = widths@;
    widths.set(wlast, u - WORD_GAP);
    assert(ints(widths@) =~= ints(w0).update(wlast as int, u - WORD_GAP));
    let ghost lb = line_layout(t@, w as int, scale as int);
    assert(lb.lines == ints(lines@));
    assert(lb.widths == ints(widths@));
    let ghost ls = ints(lines@);
    assert(forall|j: int| 0 <= j < lines@.len() ==> #[trigger] ls[j] == lines@[j] as int);
    assert(forall|j: int| 0 <= j < widths@.len() ==> #[trigger] ints(widths@)[j] == widths@[j] as int);
    let nlines: i128 = lines.len() as i128;
    let half_w: i128 = (w / 2) as i128;
    assert(half_w == trunc_div(w as int, 2));
    let mut r: Vec<GlyphQuad> = Vec::new();
    let mut back_off: i128 = 0;
    let mut line: usize = 0;
    let mut line_start: i128 = 0;
    let mut i: usize = 0;
    while i < n
        invariant
            i <= n,
            n == t@.len(),
            n == text@.len(),
            t@ == text@,
            0 < scale,
            lb == line_layout(t@, w as int, scale as int),
            ls == lb.lines,
            ls == ints(lines@),
            lb.widths == ints(widths@),
            nlines == lines@.len(),
            lines@.len() <= usize::MAX,
            lines@.len() == widths@.len(),
            1 <= lines@.len() <= ws.len() + 1,
            ws.len() <= n + 1,
            half_w == trunc_div(w as int, 2),
            forall|j: int| 0 <= j < lines@.len() ==> #[trigger] ls[j] == lines@[j] as int,
            forall|j: int| 0 <= j < widths@.len() ==> #[trigger] lb.widths[j] == widths@[j] as int,
            forall|j: int| 1 <= j < ls.len() ==> 1 <= #[trigger] ls[j],
            forall|j: int| 0 <= j < ls.len() ==> 0 <= #[trigger] ls[j],
            forall|j: int| 0 <= j < lb.widths.len() ==> -WORD_GAP <= #[trigger] lb.widths[j] <= 16 * (n + 1),
            forall|j: int| 0 <= j < ls.len() ==> #[trigger] ls[j] <= 5 * (n + 1),
            seq_sum(ls) >= n + 1,
            r@.len() == i,
            (LineCursor { back_off: back_off as int, line: line as int, line_start: line_start as int })
                == cursor_before(t@, ls, i as nat),
            forall|j: int| 0 <= j < i ==> (#[trigger] r@[j])@ == multiline_quad(
                text@,
                j,
                x as int,
                y as int,
                w as int,
                scale as int,
            ),
        decreases n - i,
    {
        proof {
            lemma_cursor_in_line(t@, ls, i as nat);
        }
        if (i as i128) - line_start >= lines[line] {
            assert(glyph_cursor(t@, ls, i as nat).line == line + 1);
            back_off = 0;
            line_start = line_start + lines[line];
            line = line + 1;
        }
        assert((LineCursor { back_off: back_off as int, line: line as int, line_start: line_start as int })
            == glyph_cursor(t@, ls, i as nat));
        let c = t[i];
        let g = glyph_of(c);
        let kk = kern_of(g);
        let d = y_offset_of(g);
        assert(0 <= (i as i128) - line_start <= 5 * (n + 1));
        assert(0 <= back_off <= 40 * (n + 1));
        assert(lb.widths[line as int] == widths@[line as int]);
        assert(-4 <= widths[line as int] <= 16 * (n + 1));
        let hw: i128 = widths[line] / 2;
        assert(-2 <= hw <= 8 * (n + 1));
        let off: i128 = ((i as i128) - line_start) * 12 - kk - back_off - hw;
        let voff: i128 = d + (line as i128) * 18 - nlines * 9;
        proof {
            lemma_scaled_bound(off as int, 0x1_0000_0000_0000_0000_0000, scale as int);
            lemma_scaled_bound(voff as int, 0x1_0000_0000_0000_0000_0000, scale as int);
        }
        let q = GlyphQuad {
            x: (x as i128) + off * (scale as i128) + half_w,
            y: (y as i128) + voff * (scale as i128),
            column: g % 16,
            row: g / 16,
        };
        r.push(q);
        back_off = back_off + 2 * kk;
        i = i + 1;
    }
    r
}

} // verus!
