use hayate_core::selection::{
    arrow_step, classify_given, line_bounds, next_grapheme, next_word, next_word_end,
    prev_grapheme, prev_word, prev_word_start, word_bounds, CharClass, Selection, SelectionPoint,
    MOD_ALT, MOD_CTRL, MOD_META, MOD_PRIMARY, MOD_SHIFT,
};
use hayate_core::ElementId;

fn point(id: u64, offset: usize) -> SelectionPoint {
    SelectionPoint::new(ElementId::from_u64(id), offset)
}

#[test]
fn word_bounds_spans_the_word_under_an_interior_offset() {
    assert_eq!(word_bounds("Hello world", 2), (0, 5));
    assert_eq!(word_bounds("Hello world", 8), (6, 11));
}

#[test]
fn word_bounds_at_a_boundary_takes_the_following_word() {
    assert_eq!(word_bounds("Hello world", 6), (6, 11));
    assert_eq!(word_bounds("Hello world", 5), (5, 6));
}

#[test]
fn word_bounds_at_end_of_text_uses_the_preceding_word() {
    let text = "Hello world";
    assert_eq!(word_bounds(text, text.len()), (6, 11));
}

#[test]
fn word_bounds_handles_multibyte_words() {
    let text = "あ い";
    assert_eq!(word_bounds(text, 0), (0, 3));
}

#[test]
fn line_bounds_spans_the_paragraph_between_newlines() {
    let text = "one\ntwo\nthree";
    assert_eq!(line_bounds(text, 5), (4, 7));
    assert_eq!(line_bounds(text, 1), (0, 3));
    assert_eq!(line_bounds(text, 9), (8, 13));
}

#[test]
fn grapheme_stepping_moves_one_char_at_a_time() {
    let text = "aあb";
    assert_eq!(next_grapheme(text, 0), 1);
    assert_eq!(next_grapheme(text, 1), 4);
    assert_eq!(next_grapheme(text, text.len()), text.len());
    assert_eq!(prev_grapheme(text, 4), 1);
    assert_eq!(prev_grapheme(text, 0), 0);
}

#[test]
fn word_stepping_jumps_across_word_runs() {
    let text = "Hello world";
    assert_eq!(next_word(text, 0), 5);
    assert_eq!(next_word(text, 2), 5);
    assert_eq!(next_word(text, 5), 11);
    assert_eq!(prev_word(text, 11), 6);
    assert_eq!(prev_word(text, 8), 6);
}

#[test]
fn caret_is_collapsed_at_a_single_point() {
    let sel = Selection::caret(point(1, 3));
    assert!(sel.is_caret());
    assert_eq!(sel.anchor, sel.focus);
    assert_eq!(sel.range_within(ElementId::from_u64(1)), Some((3, 3)));
}

#[test]
fn range_within_normalizes_to_document_order() {
    let sel = Selection {
        anchor: point(1, 7),
        focus: point(1, 2),
    };
    assert!(!sel.is_caret());
    assert_eq!(sel.range_within(ElementId::from_u64(1)), Some((2, 7)));
}

#[test]
fn range_within_is_none_for_a_different_element() {
    let sel = Selection {
        anchor: point(1, 0),
        focus: point(1, 4),
    };
    assert_eq!(sel.range_within(ElementId::from_u64(2)), None);
}

#[test]
fn stepping_from_inside_a_multibyte_char_rounds_down_first() {
    // Offset 2 lies inside the 3-byte 'あ' (bytes 1..4): it rounds down to 1.
    let text = "aあb";
    assert_eq!(next_grapheme(text, 2), 4);
    assert_eq!(prev_grapheme(text, 2), 0);
    // Past the end clamps to the end.
    assert_eq!(next_grapheme(text, 99), 5);
    assert_eq!(prev_grapheme(text, 99), 4);
}

#[test]
fn grapheme_steps_undo_each_other_on_concrete_text() {
    let text = "aあb";
    for o in [0usize, 1, 4] {
        assert_eq!(prev_grapheme(text, next_grapheme(text, o)), o);
    }
    for o in [1usize, 4, 5] {
        assert_eq!(next_grapheme(text, prev_grapheme(text, o)), o);
    }
}

#[test]
fn word_bounds_of_empty_text_is_empty() {
    assert_eq!(word_bounds("", 0), (0, 0));
    assert_eq!(word_bounds("", 5), (0, 0));
}

#[test]
fn word_bounds_groups_punctuation_and_underscores() {
    // '_' joins a word; punctuation forms its own run.
    assert_eq!(word_bounds("foo_bar!!baz", 1), (0, 7));
    assert_eq!(word_bounds("foo_bar!!baz", 7), (7, 9));
}

#[test]
fn line_bounds_without_newline_spans_everything() {
    assert_eq!(line_bounds("abc", 1), (0, 3));
    assert_eq!(line_bounds("", 0), (0, 0));
}

#[test]
fn arrow_step_resolves_only_horizontal_arrows() {
    let text = "Hello world";
    assert_eq!(arrow_step(text, "ArrowRight", 0, false), Some(1));
    assert_eq!(arrow_step(text, "ArrowLeft", 3, false), Some(2));
    assert_eq!(arrow_step(text, "ArrowRight", 0, true), Some(5));
    assert_eq!(arrow_step(text, "ArrowLeft", 11, true), Some(6));
    assert_eq!(arrow_step(text, "ArrowUp", 3, false), None);
    assert_eq!(arrow_step(text, "Enter", 3, true), None);
}

#[test]
fn modifier_bits_match_the_wire_contract() {
    assert_eq!(MOD_SHIFT, 1);
    assert_eq!(MOD_CTRL, 2);
    assert_eq!(MOD_ALT, 4);
    assert_eq!(MOD_META, 8);
    assert_eq!(MOD_PRIMARY, MOD_CTRL | MOD_META);
}

#[test]
fn word_stepping_over_whitespace_and_multibyte() {
    let text = "  あい  う";
    // Leading spaces are skipped, then the word "あい" (bytes 2..8) is consumed.
    assert_eq!(next_word(text, 0), 8);
    assert_eq!(prev_word(text, text.len()), 10);
}

#[test]
fn word_steps_over_given_classes() {
    let w = CharClass::Word;
    let sp = CharClass::Space;
    let o = CharClass::Other;
    let classes = [w, w, sp, o, sp, w, w, w];
    assert_eq!(next_word_end(&classes, 0), 2);
    assert_eq!(next_word_end(&classes, 2), 8);
    assert_eq!(next_word_end(&classes, 8), 8);
    assert_eq!(prev_word_start(&classes, 8), 5);
    assert_eq!(prev_word_start(&classes, 5), 0);
    assert_eq!(prev_word_start(&classes, 0), 0);
}

#[test]
fn classes_follow_the_given_alphanumeric_answer() {
    assert_eq!(classify_given('a', true), CharClass::Word);
    assert_eq!(classify_given('a', false), CharClass::Other);
    assert_eq!(classify_given('_', false), CharClass::Word);
    assert_eq!(classify_given(' ', true), CharClass::Space);
    assert_eq!(classify_given('\u{3000}', false), CharClass::Space);
    assert_eq!(classify_given('-', false), CharClass::Other);
}
