use hayate_core::edit_state::EditState;
use hayate_core::ime_reconcile::{
    decompose, map_offset_excluding, translate_text_input, ImeAction, TextInputState, TextSpan,
};
use hayate_core::interaction::{InteractionState, TextField};
use hayate_core::kind::ElementKind;
use hayate_core::ElementId;

fn input_state(edit: EditState) -> InteractionState {
    InteractionState::new(vec![TextField {
        id: ElementId::from_u64(1),
        kind: ElementKind::TextInput,
        multiline: false,
        edit: Some(edit),
        cursor_visible: false,
    }])
}

/// Applies IME actions to an edit state through the interaction state.
fn apply_all(edit: &mut EditState, actions: &[ImeAction]) {
    let mut s = input_state(edit.clone());
    for action in actions {
        s.apply_ime_action(ElementId::from_u64(1), action);
    }
    *edit = s.fields[0].edit.take().unwrap();
}

fn preedit_text(edit: &EditState) -> String {
    edit.preedit.as_ref().map(|p| p.text.clone()).unwrap_or_default()
}

fn composing(text: &str, start: usize, end: usize) -> TextInputState {
    TextInputState {
        text: text.to_string(),
        compose_region: Some(TextSpan { start, end }),
        selection: None,
    }
}

fn committed(text: &str) -> TextInputState {
    TextInputState {
        text: text.to_string(),
        compose_region: None,
        selection: None,
    }
}

fn with_selection(mut state: TextInputState, start: usize, end: usize) -> TextInputState {
    state.selection = Some(TextSpan { start, end });
    state
}

#[test]
fn typing_a_committed_character_sets_text() {
    let actions = translate_text_input(&TextInputState::default(), &committed("a"));
    assert_eq!(actions, vec![ImeAction::SetText("a".into())]);
}

#[test]
fn starting_composition_only_sets_preedit() {
    let actions = translate_text_input(&TextInputState::default(), &composing("か", 0, 3));
    assert_eq!(actions, vec![ImeAction::SetPreedit("か".into())]);
}

#[test]
fn updating_composition_replaces_preedit() {
    let actions = translate_text_input(&composing("か", 0, 3), &composing("かん", 0, 6));
    assert_eq!(actions, vec![ImeAction::SetPreedit("かん".into())]);
}

#[test]
fn committing_composition_sets_text_and_clears_preedit() {
    let actions = translate_text_input(&composing("かん", 0, 6), &committed("感"));
    assert_eq!(
        actions,
        vec![ImeAction::SetText("感".into()), ImeAction::SetPreedit(String::new())]
    );
}

#[test]
fn suffix_composition_preserves_committed_prefix() {
    let actions = translate_text_input(&committed("abc"), &composing("abcか", 3, 6));
    assert_eq!(actions, vec![ImeAction::SetPreedit("か".into())]);
}

#[test]
fn editing_committed_prefix_while_composing_reasserts_preedit() {
    let actions = translate_text_input(&composing("aか", 1, 4), &composing("bか", 1, 4));
    assert_eq!(
        actions,
        vec![ImeAction::SetText("b".into()), ImeAction::SetPreedit("か".into())]
    );
}

#[test]
fn no_change_emits_nothing() {
    assert!(translate_text_input(&composing("か", 0, 3), &composing("か", 0, 3)).is_empty());
}

#[test]
fn malformed_compose_region_falls_back_to_committed() {
    let actions = translate_text_input(&TextInputState::default(), &composing("x", 0, 99));
    assert_eq!(actions, vec![ImeAction::SetText("x".into())]);
}

#[test]
fn mid_text_caret_emits_set_selection_in_committed_coords() {
    let prev = with_selection(committed("helloworld"), 10, 10);
    let next = with_selection(committed("helloworld"), 5, 5);
    let actions = translate_text_input(&prev, &next);
    assert_eq!(actions, vec![ImeAction::SetSelection { anchor: 5, focus: 5 }]);
}

#[test]
fn composing_at_mid_caret_maps_preedit_position_off_the_tail() {
    let prev = with_selection(committed("helloworld"), 10, 10);
    let next = with_selection(composing("helloXworld", 5, 6), 6, 6);
    let actions = translate_text_input(&prev, &next);
    assert_eq!(
        actions,
        vec![
            ImeAction::SetSelection { anchor: 5, focus: 5 },
            ImeAction::SetPreedit("X".into()),
        ],
        "preedit lands at the mid caret, not the tail",
    );
}

#[test]
fn compose_region_off_a_char_boundary_is_not_composing() {
    // 1 falls inside the 3-byte 'か': the region is unusable, so it is all committed.
    let (text, preedit, sel) = decompose(&composing("かa", 1, 3));
    assert_eq!(text, "かa");
    assert_eq!(preedit, "");
    assert_eq!(sel, None);
}

#[test]
fn decompose_splits_committed_text_around_the_region() {
    let (text, preedit, sel) = decompose(&with_selection(composing("abXYcd", 2, 4), 5, 5));
    assert_eq!(text, "abcd");
    assert_eq!(preedit, "XY");
    assert_eq!(sel, Some((3, 3)));
}

#[test]
fn selection_off_a_char_boundary_is_dropped() {
    let prev = committed("か");
    let next = with_selection(committed("か"), 1, 1);
    assert!(translate_text_input(&prev, &next).is_empty());
}

#[test]
fn offsets_map_around_the_removed_region() {
    assert_eq!(map_offset_excluding(2, 3, 6), 2);
    assert_eq!(map_offset_excluding(3, 3, 6), 3);
    assert_eq!(map_offset_excluding(5, 3, 6), 3);
    assert_eq!(map_offset_excluding(6, 3, 6), 3);
    assert_eq!(map_offset_excluding(9, 3, 6), 6);
}

#[test]
fn applying_the_translation_reconstructs_the_next_state() {
    let states = [
        TextInputState::default(),
        committed("abc"),
        with_selection(composing("abcか", 3, 6), 6, 6),
        with_selection(composing("abcかん", 3, 9), 9, 9),
        with_selection(committed("abc漢"), 6, 6),
        with_selection(committed("abc漢"), 1, 1),
        with_selection(composing("aXbc漢", 1, 2), 2, 2),
        committed("aXbc漢"),
    ];
    let mut edit = EditState::default();
    for pair in states.windows(2) {
        let actions = translate_text_input(&pair[0], &pair[1]);
        apply_all(&mut edit, &actions);
        let (text, preedit, sel) = decompose(&pair[1]);
        assert_eq!(edit.text_content, text);
        assert_eq!(preedit_text(&edit), preedit);
        if let Some((anchor, focus)) = sel {
            assert_eq!((edit.selection_anchor, edit.cursor_byte_index), (anchor, focus));
        }
    }
}

#[test]
fn composition_at_mid_caret_commits_at_the_caret_not_the_tail() {
    let target = ElementId::from_u64(1);
    let mut s = input_state(EditState::default());
    s.on_focus(target);
    let mut prev = TextInputState::default();
    for state in [
        with_selection(committed("helloworld"), 10, 10),
        with_selection(committed("helloworld"), 5, 5),
    ] {
        for action in translate_text_input(&prev, &state) {
            s.apply_ime_action(target, &action);
        }
        prev = state;
    }
    assert_eq!(s.fields[0].edit.as_ref().unwrap().cursor_byte_index, 5);
    for state in [
        with_selection(composing("helloXworld", 5, 6), 6, 6),
        with_selection(committed("helloXworld"), 6, 6),
    ] {
        for action in translate_text_input(&prev, &state) {
            s.apply_ime_action(target, &action);
        }
        assert_eq!(
            s.fields[0].edit.as_ref().unwrap().display_text(),
            "helloXworld",
            "display reconstructs the buffer with the char at the caret",
        );
        prev = state;
    }
    assert_eq!(s.fields[0].edit.as_ref().unwrap().cursor_byte_index, 6);
}

#[test]
fn translation_drives_core_display_text_through_a_composition() {
    let target = ElementId::from_u64(1);
    let mut s = input_state(EditState::default());
    s.on_focus(target);
    let mut prev = TextInputState::default();
    for (state, expected) in [
        (composing("か", 0, 3), "か"),
        (composing("かん", 0, 6), "かん"),
        (committed("感"), "感"),
    ] {
        for action in translate_text_input(&prev, &state) {
            s.apply_ime_action(target, &action);
        }
        assert_eq!(s.fields[0].edit.as_ref().unwrap().display_text(), expected);
        prev = state;
    }
}
