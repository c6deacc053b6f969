use hayate_core::edit_state::{
    vertical_target, CompositionClause, CompositionUnderline, Direction, EditIntent, EditState,
    Granularity, VerticalTarget,
};

/// A hand-written display-line table: each line is `[start, end)` with its caret
/// columns `(byte, x)`.
struct Lines(Vec<(usize, usize, Vec<(usize, f32)>)>);

impl Lines {
    fn line_of(&self, byte: usize) -> usize {
        self.0
            .iter()
            .position(|l| byte < l.1)
            .unwrap_or_else(|| self.0.len().saturating_sub(1))
    }

    fn x_of(&self, byte: usize) -> f32 {
        let line = &self.0[self.line_of(byte)];
        let mut best = line.2[0];
        for &c in &line.2 {
            if c.0.abs_diff(byte) < best.0.abs_diff(byte) {
                best = c;
            }
        }
        best.1
    }

    fn byte_at_x_on_line(&self, line: usize, x: f32) -> usize {
        let line = &self.0[line.min(self.0.len() - 1)];
        let mut best = line.2[0];
        for &c in &line.2 {
            if (c.1 - x).abs() < (best.1 - x).abs() {
                best = c;
            }
        }
        best.0
    }

    fn bounds_at(&self, byte: usize) -> Option<(usize, usize)> {
        if self.0.is_empty() {
            return None;
        }
        let l = &self.0[self.line_of(byte)];
        Some((l.0, l.1))
    }
}

/// Drives a vertical motion over the table the way the geometry glue does.
fn vertical_motion(edit: &mut EditState, lines: &Lines, direction: Direction, extend: bool) -> bool {
    let caret = edit.cursor_byte_index;
    let current = if lines.0.is_empty() { 0 } else { lines.line_of(caret) };
    let Some(target) = vertical_target(direction, lines.0.len(), current) else {
        return false;
    };
    let goal_x = f32::from_bits(edit.goal_column(lines.x_of(caret).to_bits()));
    let landing = match target {
        VerticalTarget::Line(line) => lines.byte_at_x_on_line(line, goal_x),
        _ => 0,
    };
    edit.land_vertical_motion(target, landing, goal_x.to_bits(), extend);
    true
}

fn two_line_table() -> Lines {
    Lines(vec![
        (0, 7, vec![(0, 0.0), (6, 60.0)]),
        (7, 13, vec![(7, 0.0), (13, 60.0)]),
    ])
}

#[test]
fn vertical_motion_lands_on_nearest_column_of_adjacent_line() {
    let geo = two_line_table();
    let mut edit = EditState::default();
    edit.set("abcdef\nabcdef");
    edit.set_selection(13, 13);
    assert!(vertical_motion(&mut edit, &geo, Direction::Up, false));
    assert_eq!(edit.cursor_byte_index, 6);
    assert!(edit.is_caret());
    assert!(vertical_motion(&mut edit, &geo, Direction::Down, false));
    assert_eq!(edit.cursor_byte_index, 13);
}

#[test]
fn vertical_motion_keeps_goal_column_across_a_short_line() {
    let geo = Lines(vec![
        (0, 6, vec![(0, 0.0), (5, 50.0)]),
        (6, 9, vec![(6, 0.0), (8, 20.0)]),
        (9, 14, vec![(9, 0.0), (14, 50.0)]),
    ]);
    let mut edit = EditState::default();
    edit.set("world\nhi\nworld");
    edit.set_selection(14, 14);
    assert!(vertical_motion(&mut edit, &geo, Direction::Up, false));
    assert_eq!(edit.cursor_byte_index, 8);
    assert_eq!(edit.desired_x, Some(50.0f32.to_bits()));
    assert!(vertical_motion(&mut edit, &geo, Direction::Up, false));
    assert_eq!(edit.cursor_byte_index, 5);
}

#[test]
fn vertical_motion_past_top_and_bottom_jumps_to_field_ends() {
    let geo = two_line_table();
    let mut edit = EditState::default();
    edit.set("abcdef\nabcdef");
    edit.set_selection(2, 2);
    assert!(vertical_motion(&mut edit, &geo, Direction::Up, false));
    assert_eq!(edit.cursor_byte_index, 0);
    edit.set_selection(9, 9);
    assert!(vertical_motion(&mut edit, &geo, Direction::Down, false));
    assert_eq!(edit.cursor_byte_index, 13);
}

#[test]
fn vertical_motion_extend_keeps_anchor() {
    let geo = two_line_table();
    let mut edit = EditState::default();
    edit.set("abcdef\nabcdef");
    edit.set_selection(6, 6);
    assert!(vertical_motion(&mut edit, &geo, Direction::Down, true));
    assert_eq!(edit.selection_anchor, 6);
    assert_eq!(edit.cursor_byte_index, 13);
}

#[test]
fn vertical_motion_without_lines_is_noop_and_returns_false() {
    let geo = Lines(Vec::new());
    let mut edit = EditState::default();
    edit.set("abc");
    edit.set_selection(1, 1);
    assert!(!vertical_motion(&mut edit, &geo, Direction::Up, false));
    assert_eq!(edit.cursor_byte_index, 1);
}

#[test]
fn vertical_targets_of_each_direction() {
    assert_eq!(vertical_target(Direction::Up, 3, 0), Some(VerticalTarget::FieldStart));
    assert_eq!(vertical_target(Direction::Up, 3, 2), Some(VerticalTarget::Line(1)));
    assert_eq!(vertical_target(Direction::Down, 3, 1), Some(VerticalTarget::Line(2)));
    assert_eq!(vertical_target(Direction::Down, 3, 2), Some(VerticalTarget::FieldEnd));
    assert_eq!(vertical_target(Direction::Up, 3, 7), Some(VerticalTarget::FieldEnd));
    assert_eq!(vertical_target(Direction::Forward, 3, 1), None);
    assert_eq!(vertical_target(Direction::Down, 0, 0), None);
}

#[test]
fn display_line_boundary_moves_to_current_line_ends() {
    let geo = two_line_table();
    let mut edit = EditState::default();
    edit.set("abcdef\nabcdef");
    edit.set_selection(3, 3);
    edit.desired_x = Some(99.0f32.to_bits());
    assert!(edit.display_line_boundary(geo.bounds_at(3), Direction::Backward, false));
    assert_eq!(edit.cursor_byte_index, 0);
    assert_eq!(edit.desired_x, None);
    edit.set_selection(3, 3);
    assert!(edit.display_line_boundary(geo.bounds_at(3), Direction::Forward, false));
    assert_eq!(edit.cursor_byte_index, 6);
}

#[test]
fn display_line_boundary_needs_a_line_and_a_horizontal_direction() {
    let mut edit = EditState::default();
    edit.set("ab\r\n\ncd");
    edit.set_selection(1, 1);
    assert!(!edit.display_line_boundary(None, Direction::Forward, false));
    assert!(!edit.display_line_boundary(Some((0, 5)), Direction::Up, false));
    assert_eq!(edit.cursor_byte_index, 1);
    assert!(edit.display_line_boundary(Some((0, 5)), Direction::Forward, true));
    assert_eq!(edit.cursor_byte_index, 2);
    assert_eq!(edit.selection_anchor, 1);
    assert!(edit.display_line_boundary(Some((4, 5)), Direction::Forward, false));
    assert_eq!(edit.cursor_byte_index, 4);
}


fn move_grapheme(d: Direction) -> EditIntent {
    EditIntent::Move {
        granularity: Granularity::Grapheme,
        direction: d,
    }
}

fn extend_grapheme(d: Direction) -> EditIntent {
    EditIntent::Extend {
        granularity: Granularity::Grapheme,
        direction: d,
    }
}

fn delete_grapheme(d: Direction) -> EditIntent {
    EditIntent::Delete {
        granularity: Granularity::Grapheme,
        direction: d,
    }
}

#[test]
fn backspace_removes_last_scalar() {
    let mut edit = EditState::default();
    edit.append("hello");
    assert!(edit.backspace());
    assert_eq!(edit.text_content, "hell");
    assert_eq!(edit.cursor_byte_index, 4);
}

#[test]
fn select_all_spans_the_whole_content() {
    let mut edit = EditState::default();
    edit.set("héllo");
    edit.set_selection(2, 2);
    assert!(edit.apply(EditIntent::SelectAll));
    assert_eq!(
        edit.selection_range(),
        Some((0, "héllo".len())),
        "the entire content is selected",
    );
}

#[test]
fn select_all_on_empty_content_stays_collapsed() {
    let mut edit = EditState::default();
    assert!(edit.apply(EditIntent::SelectAll));
    assert!(edit.is_caret());
    assert_eq!(edit.cursor_byte_index, 0);
}

#[test]
fn move_to_line_boundary_jumps_to_field_start_and_end() {
    let mut edit = EditState::default();
    edit.set("hello");
    edit.set_selection(2, 2);
    assert!(edit.apply(EditIntent::Move {
        granularity: Granularity::LineBoundary,
        direction: Direction::Backward,
    }));
    assert_eq!(edit.cursor_byte_index, 0, "Home lands at the field start");
    assert!(edit.is_caret());
    assert!(edit.apply(EditIntent::Move {
        granularity: Granularity::LineBoundary,
        direction: Direction::Forward,
    }));
    assert_eq!(edit.cursor_byte_index, 5, "End lands at the field end");
    assert!(edit.is_caret());
}

#[test]
fn delete_over_a_selection_removes_the_range_and_collapses_to_its_start() {
    for direction in [Direction::Backward, Direction::Forward] {
        let mut edit = EditState::default();
        edit.set("hello");
        edit.set_selection(1, 4);
        assert!(edit.apply(delete_grapheme(direction)));
        assert_eq!(edit.text_content, "ho", "{direction:?}: the range is gone");
        assert_eq!(edit.cursor_byte_index, 1, "{direction:?}: collapses to range start");
        assert!(edit.is_caret(), "{direction:?}: collapsed");
    }
}

#[test]
fn delete_forward_grapheme_removes_the_char_after_the_caret() {
    let mut edit = EditState::default();
    edit.set("aあb");
    edit.set_selection(0, 0);
    assert!(edit.apply(delete_grapheme(Direction::Forward)));
    assert_eq!(edit.text_content, "あb", "removes the leading 'a'");
    assert_eq!(edit.cursor_byte_index, 0, "caret stays at the deletion point");
    assert!(edit.apply(delete_grapheme(Direction::Forward)));
    assert_eq!(edit.text_content, "b", "removes the 3-byte 'あ' whole");
    assert_eq!(edit.cursor_byte_index, 0);
    assert!(edit.is_caret());
}

#[test]
fn delete_at_the_text_boundary_is_a_no_op() {
    let mut edit = EditState::default();
    edit.set("hi");
    assert!(!edit.apply(delete_grapheme(Direction::Forward)), "nothing past the end");
    assert_eq!(edit.text_content, "hi");
    edit.set_selection(0, 0);
    assert!(!edit.apply(delete_grapheme(Direction::Backward)), "nothing before the start");
    assert_eq!(edit.text_content, "hi");
}

#[test]
fn delete_backward_grapheme_removes_the_char_before_the_caret() {
    let mut edit = EditState::default();
    edit.set("aあb");
    assert!(edit.apply(delete_grapheme(Direction::Backward)));
    assert_eq!(edit.text_content, "aあ", "removes the trailing 'b'");
    assert_eq!(edit.cursor_byte_index, 4, "caret lands where 'b' began");
    assert!(edit.apply(delete_grapheme(Direction::Backward)));
    assert_eq!(edit.text_content, "a", "removes the 3-byte 'あ' whole");
    assert_eq!(edit.cursor_byte_index, 1);
    assert!(edit.is_caret());
}

#[test]
fn move_forward_grapheme_steps_the_caret_one_char() {
    let mut edit = EditState::default();
    edit.set("aあb");
    edit.set_selection(0, 0);
    assert!(edit.apply(move_grapheme(Direction::Forward)));
    assert_eq!(edit.cursor_byte_index, 1, "advances past 'a'");
    assert!(edit.apply(move_grapheme(Direction::Forward)));
    assert_eq!(edit.cursor_byte_index, 4, "advances past the 3-byte 'あ'");
    assert!(edit.is_caret(), "a Move stays collapsed");
}

#[test]
fn single_line_vertical_moves_to_field_start_and_end() {
    let mut edit = EditState::default();
    edit.set("hello");
    edit.set_selection(2, 2);
    assert!(edit.apply(EditIntent::Move {
        granularity: Granularity::Grapheme,
        direction: Direction::Up,
    }));
    assert_eq!(edit.cursor_byte_index, 0, "↑ → field start");
    assert!(edit.is_caret());
    assert!(edit.apply(EditIntent::Move {
        granularity: Granularity::Grapheme,
        direction: Direction::Down,
    }));
    assert_eq!(edit.cursor_byte_index, 5, "↓ → field end");
    assert!(edit.is_caret());
}

#[test]
fn single_line_vertical_jumps_over_a_selection_to_the_field_end() {
    let mut edit = EditState::default();
    edit.set("hello");
    edit.set_selection(1, 4);
    assert!(edit.apply(EditIntent::Move {
        granularity: Granularity::Grapheme,
        direction: Direction::Down,
    }));
    assert_eq!(edit.cursor_byte_index, 5, "↓ jumps past the selection to the end");
    assert!(edit.is_caret());
}

#[test]
fn shift_vertical_extends_to_the_field_ends_in_a_single_line() {
    let mut edit = EditState::default();
    edit.set("hello");
    edit.set_selection(2, 2);
    assert!(edit.apply(EditIntent::Extend {
        granularity: Granularity::Grapheme,
        direction: Direction::Up,
    }));
    assert_eq!(edit.selection_anchor, 2, "anchor stays put");
    assert_eq!(edit.cursor_byte_index, 0, "Shift+↑ extends to the field start");
    assert_eq!(edit.selection_range(), Some((0, 2)));
}

#[test]
fn a_horizontal_move_clears_the_sticky_goal_column() {
    let mut edit = EditState::default();
    edit.set("hello");
    edit.desired_x = Some(42.0f32.to_bits());
    assert!(edit.apply(move_grapheme(Direction::Backward)));
    assert_eq!(edit.desired_x, None, "a horizontal step resets the goal column");
}

#[test]
fn editing_clears_the_sticky_goal_column() {
    let mut edit = EditState::default();
    edit.set("hello");
    edit.set_selection(2, 2);
    edit.desired_x = Some(42.0f32.to_bits());
    edit.insert("X");
    assert_eq!(edit.desired_x, None, "an edit resets the goal column");
}

#[test]
fn move_to_doc_boundary_jumps_to_field_start_and_end() {
    let mut edit = EditState::default();
    edit.set("hello world");
    edit.set_selection(4, 4);
    assert!(edit.apply(EditIntent::Move {
        granularity: Granularity::DocBoundary,
        direction: Direction::Backward,
    }));
    assert_eq!(edit.cursor_byte_index, 0, "Ctrl+Home lands at the start");
    assert!(edit.apply(EditIntent::Move {
        granularity: Granularity::DocBoundary,
        direction: Direction::Forward,
    }));
    assert_eq!(edit.cursor_byte_index, 11, "Ctrl+End lands at the end");
    assert!(edit.is_caret());
}

#[test]
fn move_to_boundary_over_a_selection_jumps_to_the_boundary_not_the_edge() {
    let mut edit = EditState::default();
    edit.set("hello");
    edit.set_selection(1, 4);
    assert!(edit.apply(EditIntent::Move {
        granularity: Granularity::LineBoundary,
        direction: Direction::Forward,
    }));
    assert_eq!(edit.cursor_byte_index, 5);
    assert!(edit.is_caret());
}

#[test]
fn move_backward_grapheme_steps_the_caret_left() {
    let mut edit = EditState::default();
    edit.set("aあb");
    assert!(edit.apply(move_grapheme(Direction::Backward)));
    assert_eq!(edit.cursor_byte_index, 4, "retreats past 'b'");
    assert!(edit.is_caret());
}

#[test]
fn move_forward_over_a_selection_collapses_to_its_right_edge() {
    let mut edit = EditState::default();
    edit.set("hello");
    edit.set_selection(1, 4);
    assert!(edit.apply(move_grapheme(Direction::Forward)));
    assert_eq!(edit.cursor_byte_index, 4);
    assert!(edit.is_caret());
}

#[test]
fn move_backward_over_a_selection_collapses_to_its_left_edge() {
    let mut edit = EditState::default();
    edit.set("hello");
    edit.set_selection(4, 1);
    assert!(edit.apply(move_grapheme(Direction::Backward)));
    assert_eq!(edit.cursor_byte_index, 1);
    assert!(edit.is_caret());
}

#[test]
fn extend_grapheme_moves_the_focus_keeping_the_anchor() {
    let mut edit = EditState::default();
    edit.set("hello");
    assert!(edit.apply(extend_grapheme(Direction::Backward)));
    assert!(edit.apply(extend_grapheme(Direction::Backward)));
    assert_eq!(edit.selection_anchor, 5, "anchor stays fixed at the start point");
    assert_eq!(edit.cursor_byte_index, 3, "focus retreats two chars");
    assert_eq!(edit.selection_range(), Some((3, 5)), "selects 'lo'");
    assert!(edit.apply(extend_grapheme(Direction::Forward)));
    assert_eq!(edit.cursor_byte_index, 4, "focus advances, shrinking the range");
}

#[test]
fn move_and_extend_by_word_use_the_shared_word_steppers() {
    let mut edit = EditState::default();
    edit.set("hello world");
    edit.set_selection(0, 0);
    assert!(edit.apply(EditIntent::Move {
        granularity: Granularity::Word,
        direction: Direction::Forward,
    }));
    assert_eq!(edit.cursor_byte_index, 5, "word move lands at end of 'hello'");
    assert!(edit.apply(EditIntent::Extend {
        granularity: Granularity::Word,
        direction: Direction::Forward,
    }));
    assert_eq!(edit.cursor_byte_index, 11, "word extend reaches end of 'world'");
    assert_eq!(edit.selection_range(), Some((5, 11)));
}

#[test]
fn delete_by_word_removes_a_whole_word_in_each_direction() {
    let mut edit = EditState::default();
    edit.set("hello world");
    assert!(edit.apply(EditIntent::Delete {
        granularity: Granularity::Word,
        direction: Direction::Backward,
    }));
    assert_eq!(edit.text_content, "hello ", "the word before the caret goes");
    assert_eq!(edit.cursor_byte_index, 6, "caret collapses to the word start");
    edit.set_selection(0, 0);
    assert!(edit.apply(EditIntent::Delete {
        granularity: Granularity::Word,
        direction: Direction::Forward,
    }));
    assert_eq!(edit.text_content, " ", "the word after the caret goes");
    assert_eq!(edit.cursor_byte_index, 0, "caret stays at the deletion point");
}

#[test]
fn extend_to_boundary_selects_to_the_field_end_keeping_the_anchor() {
    let mut edit = EditState::default();
    edit.set("hello world");
    edit.set_selection(6, 6);
    assert!(edit.apply(EditIntent::Extend {
        granularity: Granularity::LineBoundary,
        direction: Direction::Forward,
    }));
    assert_eq!(edit.selection_anchor, 6, "anchor stays put");
    assert_eq!(edit.cursor_byte_index, 11, "focus reaches the field end");
    assert_eq!(edit.selection_range(), Some((6, 11)), "selects 'world'");
    assert!(edit.apply(EditIntent::Extend {
        granularity: Granularity::DocBoundary,
        direction: Direction::Backward,
    }));
    assert_eq!(edit.selection_anchor, 6, "anchor still fixed");
    assert_eq!(edit.cursor_byte_index, 0, "focus crosses to the field start");
    assert_eq!(edit.selection_range(), Some((0, 6)), "now selects 'hello '");
}

#[test]
fn paste_commits_preedit_first() {
    let mut edit = EditState::default();
    edit.append("ab");
    edit.set_preedit("CD");
    assert!(edit.paste("xy"));
    assert_eq!(edit.text_content, "abCDxy");
    assert!(edit.preedit.is_none());
}

#[test]
fn typing_replaces_the_selected_range() {
    let mut edit = EditState::default();
    edit.set("hello");
    edit.set_selection(1, 4);
    assert!(!edit.is_caret());
    edit.insert("X");
    assert_eq!(edit.text_content, "hXo");
    assert_eq!(edit.cursor_byte_index, 2, "caret sits after the inserted text");
    assert!(edit.is_caret(), "the range collapses once it is replaced");
}

#[test]
fn backspace_deletes_the_selected_range_not_one_char() {
    let mut edit = EditState::default();
    edit.set("hello");
    edit.set_selection(1, 4);
    assert!(edit.backspace());
    assert_eq!(edit.text_content, "ho");
    assert_eq!(edit.cursor_byte_index, 1, "caret collapses to the range start");
    assert!(edit.is_caret());
}

#[test]
fn paste_replaces_the_selected_range() {
    let mut edit = EditState::default();
    edit.set("hello");
    edit.set_selection(0, 5);
    assert!(edit.paste("bye"));
    assert_eq!(edit.text_content, "bye");
    assert_eq!(edit.cursor_byte_index, 3);
    assert!(edit.is_caret());
}

#[test]
fn finish_composition_uses_commit_preedit() {
    let mut edit = EditState::default();
    edit.append("abc");
    edit.set_preedit("DEF");
    edit.finish_composition("愛");
    assert_eq!(edit.text_content, "abc愛");
    assert!(edit.preedit.is_none());
}

#[test]
fn set_value_replaces_content_and_finalizes_active_preedit() {
    let mut edit = EditState::default();
    edit.append("abc");
    edit.set_preedit("DEF");
    assert!(edit.set_value("xyz"), "replacing the value is a change");
    assert_eq!(edit.text_content, "xyz", "value is fully replaced");
    assert!(edit.preedit.is_none(), "composition must not linger");
    assert_eq!(edit.display_text(), "xyz");
    assert_eq!(edit.cursor_byte_index, 3, "caret sits at the end of the value");
    assert!(edit.is_caret());
}

#[test]
fn preedit_retains_clause_format_ranges() {
    let mut edit = EditState::default();
    edit.append("ab");
    edit.set_preedit_with_clauses(
        "ぎゅう",
        vec![CompositionClause {
            start: 0,
            end: 9,
            underline: CompositionUnderline::Thick,
        }],
    );
    let preedit = edit.preedit.as_ref().expect("composition active");
    assert_eq!(preedit.text, "ぎゅう");
    assert_eq!(preedit.clauses[0].underline, CompositionUnderline::Thick);
    assert_eq!(edit.display_text(), "abぎゅう");
}

#[test]
fn unformatted_preedit_underlines_the_whole_run_thin() {
    let mut edit = EditState::default();
    edit.append("ab");
    edit.set_preedit("xyz");
    assert_eq!(
        edit.composition_underlines(),
        vec![(2, 5, CompositionUnderline::Thin)],
    );
}

#[test]
fn clause_split_underlines_each_segment_in_display_offsets() {
    let mut edit = EditState::default();
    edit.append("ab");
    edit.set_preedit_with_clauses(
        "ぎゅうにゅう",
        vec![
            CompositionClause {
                start: 0,
                end: 9,
                underline: CompositionUnderline::Thick,
            },
            CompositionClause {
                start: 9,
                end: 18,
                underline: CompositionUnderline::Thin,
            },
        ],
    );
    assert_eq!(
        edit.composition_underlines(),
        vec![
            (2, 11, CompositionUnderline::Thick),
            (11, 20, CompositionUnderline::Thin),
        ],
    );
}

#[test]
fn no_composition_has_no_underlines() {
    let mut edit = EditState::default();
    edit.set("hello");
    assert!(edit.composition_underlines().is_empty());
}

#[test]
fn from_wire_decodes_format_triples() {
    let clauses = CompositionClause::from_wire(&[0, 9, 1, 9, 18, 0]);
    assert_eq!(
        clauses,
        vec![
            CompositionClause {
                start: 0,
                end: 9,
                underline: CompositionUnderline::Thick
            },
            CompositionClause {
                start: 9,
                end: 18,
                underline: CompositionUnderline::Thin
            },
        ],
    );
    assert!(CompositionClause::from_wire(&[5, 5, 0, 7]).is_empty());
}

#[test]
fn commit_clears_composition_decoration() {
    let mut edit = EditState::default();
    edit.append("ab");
    edit.set_preedit_with_clauses(
        "ぎゅう",
        vec![CompositionClause {
            start: 0,
            end: 9,
            underline: CompositionUnderline::Thick,
        }],
    );
    edit.commit_preedit();
    assert_eq!(edit.text_content, "abぎゅう");
    assert!(edit.preedit.is_none());
    assert!(edit.composition_underlines().is_empty());
}

#[test]
fn preedit_displays_and_commits_at_the_caret_not_the_tail() {
    let mut edit = EditState::default();
    edit.set("helloworld");
    edit.set_selection(5, 5);
    edit.set_preedit("X");
    assert_eq!(edit.display_text(), "helloXworld", "preedit shows at the caret");
    assert_eq!(edit.display_cursor_byte_index(), 6);
    edit.commit_preedit();
    assert_eq!(edit.text_content, "helloXworld", "commit lands at the caret");
    assert_eq!(edit.cursor_byte_index, 6, "caret advances past the inserted text");
    assert!(edit.is_caret());
}

#[test]
fn composition_underlines_track_the_caret() {
    let mut edit = EditState::default();
    edit.set("abXY");
    edit.set_selection(2, 2);
    edit.set_preedit_with_clauses(
        "き",
        vec![CompositionClause {
            start: 0,
            end: 3,
            underline: CompositionUnderline::Thick,
        }],
    );
    assert_eq!(edit.display_text(), "abきXY");
    assert_eq!(
        edit.composition_underlines(),
        vec![(2, 5, CompositionUnderline::Thick)],
    );
}

#[test]
fn set_value_to_identical_committed_content_is_not_a_change() {
    let mut edit = EditState::default();
    edit.set("abc");
    assert!(!edit.set_value("abc"), "no-op replacement reports no change");
}

#[test]
fn cut_returns_and_removes_the_selection() {
    let mut edit = EditState::default();
    edit.set("hello");
    assert_eq!(edit.cut(), None, "a caret cuts nothing");
    edit.set_selection(4, 1);
    assert_eq!(edit.cut().as_deref(), Some("ell"));
    assert_eq!(edit.text_content, "ho");
    assert_eq!(edit.cursor_byte_index, 1);
    assert!(edit.is_caret());
}

#[test]
fn clipboard_intents_are_not_consumed_by_the_edit_state() {
    let mut edit = EditState::default();
    edit.set("hello");
    edit.set_selection(0, 5);
    for intent in [EditIntent::Copy, EditIntent::Cut, EditIntent::Paste] {
        assert!(!edit.apply(intent));
    }
    assert_eq!(edit.text_content, "hello");
    assert_eq!(edit.selection_range(), Some((0, 5)));
}

#[test]
fn insert_line_break_replaces_the_selection() {
    let mut edit = EditState::default();
    edit.set("ab");
    edit.set_selection(1, 2);
    assert!(edit.apply(EditIntent::InsertLineBreak));
    assert_eq!(edit.text_content, "a\n");
    assert_eq!(edit.cursor_byte_index, 2);
}

#[test]
fn set_selection_and_move_focus_clamp_to_the_text() {
    let mut edit = EditState::default();
    edit.set("abc");
    edit.set_selection(10, 20);
    assert_eq!((edit.selection_anchor, edit.cursor_byte_index), (3, 3));
    edit.set_selection(1, 1);
    edit.move_focus(99);
    assert_eq!((edit.selection_anchor, edit.cursor_byte_index), (1, 3));
    edit.collapse();
    assert!(edit.is_caret());
    assert_eq!(edit.selection_anchor, 3);
}

#[test]
fn goal_column_prefers_the_sticky_column() {
    let mut edit = EditState::default();
    assert_eq!(edit.goal_column(7), 7);
    edit.desired_x = Some(42);
    assert_eq!(edit.goal_column(7), 42);
}
