use shittuber::layout::{layout_text, layout_text_centered, layout_text_right, text_width_of, GlyphQuad};
use shittuber::multiline::layout_multiline;

fn quads(v: &[(i128, i128, u32, u32)]) -> Vec<GlyphQuad> {
    v.iter().map(|&(x, y, column, row)| GlyphQuad { x, y, column, row }).collect()
}

#[test]
fn line_places_each_glyph_one_scaled_cell_further() {
    assert_eq!(layout_text("AB", 10, 20, 2), quads(&[(10, 20, 1, 2), (34, 20, 2, 2)]));
}

#[test]
fn line_trims_kerned_glyphs() {
    // 'i' and '!' are trimmed by 3 pixels on each side
    assert_eq!(layout_text("Hi!", 0, 0, 1), quads(&[(0, 0, 8, 2), (9, 0, 9, 4), (15, 0, 1, 0)]));
}

#[test]
fn descenders_drop_and_other_characters_use_the_last_glyph() {
    assert_eq!(layout_text("gé", 0, 0, 1), quads(&[(0, 3, 7, 4), (12, 0, 15, 5)]));
}

#[test]
fn nothing_is_drawn_below_scale_one() {
    assert!(layout_text("AB", 0, 0, 0).is_empty());
    assert!(layout_text("AB", 0, 0, -3).is_empty());
    assert!(layout_text_centered("AB", 0, 0, 0).is_empty());
    assert!(layout_text_right("AB", 0, 0, -1).is_empty());
    assert!(layout_multiline("AB", 0, 0, 100, 0).is_empty());
}

#[test]
fn width_counts_trimmed_cells() {
    assert_eq!(text_width_of("Hi"), 18);
    assert_eq!(text_width_of(""), 0);
    assert_eq!(text_width_of("AB"), 24);
}

#[test]
fn width_of_joined_texts_adds_up() {
    assert_eq!(text_width_of("Hi!AB"), text_width_of("Hi!") + text_width_of("AB"));
}

#[test]
fn centred_line_starts_half_its_width_left() {
    assert_eq!(layout_text_centered("Hi", 100, 5, 3), quads(&[(73, 5, 8, 2), (100, 5, 9, 4)]));
}

#[test]
fn right_aligned_line_ends_at_x() {
    assert_eq!(layout_text_right("Hi", 100, 5, 3), quads(&[(46, 5, 8, 2), (73, 5, 9, 4)]));
}

#[test]
fn line_spans_exactly_its_width() {
    let t = "!Hi!";
    let q = layout_text(t, 7, 0, 2);
    // '!' is trimmed by 3 on each side
    let left = q[0].x + 3 * 2;
    let right = q[3].x + (12 - 3) * 2;
    assert_eq!(left, 7);
    assert_eq!(right - left, text_width_of(t) * 2);
}

#[test]
fn block_on_one_line_is_centred() {
    assert_eq!(
        layout_multiline("hello world", 0, 100, 200, 1),
        quads(&[
            (47, 91, 8, 4), (59, 91, 5, 4), (68, 91, 12, 4), (74, 91, 12, 4), (83, 91, 15, 4),
            (91, 91, 0, 0), (99, 91, 7, 5), (111, 91, 15, 4), (123, 91, 2, 5), (132, 91, 12, 4),
            (141, 91, 4, 4),
        ])
    );
}

#[test]
fn block_wraps_words_that_do_not_fit() {
    assert_eq!(
        layout_multiline("hello world", 0, 100, 100, 1),
        quads(&[
            (26, 82, 8, 4), (38, 82, 5, 4), (47, 82, 12, 4), (53, 82, 12, 4), (62, 82, 15, 4),
            (70, 82, 0, 0), (23, 100, 7, 5), (35, 100, 15, 4), (47, 100, 2, 5), (56, 100, 12, 4),
            (65, 100, 4, 4),
        ])
    );
}

#[test]
fn block_scales_and_wraps_at_the_scaled_width() {
    assert_eq!(
        layout_multiline("hi there friend", 10, 50, 60, 2),
        quads(&[
            (22, -4, 8, 4), (40, -4, 9, 4), (50, -4, 0, 0), (-20, 32, 4, 5), (4, 32, 8, 4),
            (28, 32, 5, 4), (52, 32, 2, 5), (76, 32, 5, 4), (92, 32, 0, 0), (-26, 68, 6, 4),
            (-2, 68, 2, 5), (16, 68, 9, 4), (34, 68, 5, 4), (58, 68, 14, 4), (82, 68, 4, 4),
        ])
    );
}

#[test]
fn block_whose_first_word_does_not_fit_starts_with_an_empty_line() {
    assert_eq!(
        layout_multiline("a b", 0, 0, -10, 1),
        quads(&[(-11, -9, 1, 4), (-3, -9, 0, 0), (-11, 9, 2, 4)])
    );
}

#[test]
fn block_counts_line_lengths_in_bytes() {
    assert_eq!(
        layout_multiline("café au lait", 0, 0, 60, 1),
        quads(&[
            (6, -27, 3, 4), (18, -27, 1, 4), (30, -27, 6, 4), (42, -27, 15, 5), (50, -27, 0, 0),
            (58, -27, 1, 4), (18, -9, 5, 5), (26, -9, 0, 0), (31, -9, 12, 4), (12, 9, 1, 4),
            (21, 9, 9, 4), (30, 9, 4, 5),
        ])
    );
}

#[test]
fn empty_block_draws_nothing() {
    assert!(layout_multiline("", 0, 0, 100, 1).is_empty());
}

#[test]
fn word_wraps_once_the_line_would_reach_the_box_width() {
    // "AB" is 24 pixels wide and leaves a 4-pixel gap; "CD" is 24 more
    let joined = layout_multiline("AB CD", 0, 0, 53, 1);
    assert_eq!(joined[0].y, joined[3].y);
    let wrapped = layout_multiline("AB CD", 0, 0, 52, 1);
    assert_eq!(wrapped[3].y, wrapped[0].y + 18);
    // a first word as wide as the box goes below an empty first line
    assert_eq!(layout_multiline("AB", 0, 0, 25, 1)[0].y, -9);
    assert_eq!(layout_multiline("AB", 0, 0, 24, 1)[0].y, 0);
}
