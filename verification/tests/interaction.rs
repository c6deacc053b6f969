use std::cell::RefCell;

use hayate_core::capability::Clipboard;
use hayate_core::edit_state::{Direction, EditIntent, EditState, Granularity};
use hayate_core::id::ElementId;
use hayate_core::interaction::{
    begin_edit_selection, selected_text, InputModality, InteractionEvent, InteractionIntent, InteractionResult,
    InteractionState, SelectionFacts, TextField,
};
use hayate_core::kind::ElementKind;
use hayate_core::pointer::PointerKind;
use hayate_core::selection_chrome::ToolbarAction;
use hayate_core::pointer_gesture::{TapCounter, TapPhase};
use hayate_core::selection::{Selection, SelectionPoint, MOD_ALT, MOD_CTRL, MOD_META, MOD_SHIFT};

struct TestClipboard {
    written: RefCell<Vec<String>>,
    content: Option<String>,
}

impl TestClipboard {
    fn holding(content: Option<&str>) -> Self {
        TestClipboard { written: RefCell::new(Vec::new()), content: content.map(|s| s.to_string()) }
    }
}

impl Clipboard for TestClipboard {
    fn write_text(&self, text: &str) {
        self.written.borrow_mut().push(text.to_string());
    }

    fn read_text(&self) -> Option<String> {
        self.content.clone()
    }
}

fn id(n: u64) -> ElementId {
    ElementId::from_u64(n)
}

fn edit(text: &str) -> EditState {
    let mut e = EditState::default();
    e.set(text);
    e
}

fn input(n: u64, text: &str, multiline: bool) -> TextField {
    TextField {
        id: id(n),
        kind: ElementKind::TextInput,
        multiline,
        edit: Some(edit(text)),
        cursor_visible: false,
    }
}

fn state(fields: Vec<TextField>) -> InteractionState {
    InteractionState::new(fields)
}

fn edit_of(s: &InteractionState, n: u64) -> &EditState {
    s.fields.iter().find(|f| f.id == id(n)).unwrap().edit.as_ref().unwrap()
}

const NONE: Option<&TestClipboard> = None;

#[test]
fn edit_intents_apply_only_to_eligible_text_inputs() {
    let mut button = input(3, "", false);
    button.kind = ElementKind::Button;
    let mut composing = input(4, "ab", false);
    composing.edit.as_mut().unwrap().set_preedit("か");
    let s = state(vec![
        input(1, "ab", false),
        input(2, "ab", true),
        button,
        composing,
        TextField {
            id: id(5),
            kind: ElementKind::TextInput,
            multiline: false,
            edit: None,
            cursor_visible: false,
        },
    ]);
    let right = EditIntent::Move { granularity: Granularity::Grapheme, direction: Direction::Forward };
    assert!(s.can_apply_edit_intent(id(1), right));
    assert!(!s.can_apply_edit_intent(id(1), EditIntent::InsertLineBreak));
    assert!(s.can_apply_edit_intent(id(2), EditIntent::InsertLineBreak));
    assert!(!s.can_apply_edit_intent(id(3), right));
    assert!(!s.can_apply_edit_intent(id(4), right));
    assert!(!s.can_apply_edit_intent(id(5), right));
    assert!(!s.can_apply_edit_intent(id(9), right));
}

#[test]
fn an_ineligible_intent_changes_nothing() {
    let mut s = state(vec![input(1, "ab", false)]);
    s.selection = Some(Selection {
        anchor: SelectionPoint::new(id(7), 0),
        focus: SelectionPoint::new(id(7), 3),
    });
    assert!(!s.apply_edit_intent(id(1), EditIntent::InsertLineBreak, NONE, None));
    assert_eq!(edit_of(&s, 1).text_content, "ab");
    assert!(s.selection.is_some());
    assert!(s.events.is_empty());
}

#[test]
fn a_consumed_edit_moves_the_caret_and_clears_the_document_selection() {
    let mut s = state(vec![input(1, "abc", false)]);
    s.fields[0].edit.as_mut().unwrap().set_selection(0, 0);
    s.selection = Some(Selection {
        anchor: SelectionPoint::new(id(7), 0),
        focus: SelectionPoint::new(id(7), 3),
    });
    let right = EditIntent::Move { granularity: Granularity::Grapheme, direction: Direction::Forward };
    assert!(s.apply_edit_intent(id(1), right, NONE, None));
    assert_eq!(edit_of(&s, 1).cursor_byte_index, 1);
    assert_eq!(edit_of(&s, 1).selection_anchor, 1);
    assert!(s.selection.is_none());
    assert_eq!(s.drain_events(), vec![InteractionEvent::SelectionChange]);
    assert!(s.events.is_empty());
}

#[test]
fn a_line_break_in_a_multiline_input_reports_the_new_value() {
    let mut s = state(vec![input(2, "ab", true)]);
    assert!(s.apply_edit_intent(id(2), EditIntent::InsertLineBreak, NONE, None));
    assert_eq!(edit_of(&s, 2).text_content, "ab\n");
    assert_eq!(
        s.events,
        vec![InteractionEvent::TextInput { target_id: id(2), text: "ab\n".to_string() }]
    );
}

#[test]
fn copy_and_cut_write_the_focused_edit_selection() {
    let mut s = state(vec![input(1, "hello", false)]);
    s.on_focus(id(1));
    s.fields[0].edit.as_mut().unwrap().set_selection(1, 4);
    let clip = TestClipboard::holding(None);
    assert!(s.apply_edit_intent(id(1), EditIntent::Copy, Some(&clip), None));
    assert_eq!(edit_of(&s, 1).text_content, "hello");
    assert!(s.apply_edit_intent(id(1), EditIntent::Cut, Some(&clip), None));
    assert_eq!(edit_of(&s, 1).text_content, "ho");
    assert_eq!(edit_of(&s, 1).cursor_byte_index, 1);
    assert_eq!(*clip.written.borrow(), vec!["ell".to_string(), "ell".to_string()]);
}

#[test]
fn paste_inserts_the_clipboard_text_and_reports_the_value() {
    let mut s = state(vec![input(1, "ac", false)]);
    s.fields[0].edit.as_mut().unwrap().set_selection(1, 1);
    let clip = TestClipboard::holding(Some("b"));
    assert!(s.apply_edit_intent(id(1), EditIntent::Paste, Some(&clip), None));
    assert_eq!(edit_of(&s, 1).text_content, "abc");
    assert_eq!(edit_of(&s, 1).cursor_byte_index, 2);
    assert_eq!(
        s.events,
        vec![InteractionEvent::TextInput { target_id: id(1), text: "abc".to_string() }]
    );
    let empty = TestClipboard::holding(None);
    assert!(s.apply_edit_intent(id(1), EditIntent::Paste, Some(&empty), None));
    assert_eq!(edit_of(&s, 1).text_content, "abc");
    assert_eq!(s.events.len(), 1);
}

#[test]
fn focus_blurs_the_previous_element_first_and_is_idempotent() {
    let mut s = state(vec![input(1, "a", false), input(2, "b", false)]);
    s.on_focus(id(1));
    s.on_focus(id(2));
    s.on_focus(id(2));
    assert_eq!(s.focused_element, Some(id(2)));
    assert_eq!(
        s.drain_events(),
        vec![
            InteractionEvent::Focus { target_id: id(1) },
            InteractionEvent::Blur { target_id: id(1) },
            InteractionEvent::Focus { target_id: id(2) },
        ]
    );
    s.on_blur(id(1));
    assert!(s.events.is_empty());
    s.on_blur(id(2));
    assert_eq!(s.focused_element, None);
    assert_eq!(s.events, vec![InteractionEvent::Blur { target_id: id(2) }]);
}

#[test]
fn blur_commits_an_active_preedit_and_reports_it() {
    let mut s = state(vec![input(1, "ab", false)]);
    s.on_focus(id(1));
    s.on_composition_start(id(1), "か");
    s.drain_events();
    s.on_blur(id(1));
    assert_eq!(edit_of(&s, 1).text_content, "abか");
    assert!(edit_of(&s, 1).preedit.is_none());
    assert_eq!(
        s.events,
        vec![
            InteractionEvent::TextInput { target_id: id(1), text: "abか".to_string() },
            InteractionEvent::Blur { target_id: id(1) },
        ]
    );
}

#[test]
fn a_touch_blur_collapses_the_edit_selection() {
    let mut s = state(vec![input(1, "hello", false), input(2, "x", false)]);
    s.on_focus(id(1));
    s.fields[0].edit.as_mut().unwrap().set_selection(1, 4);
    s.last_pointer_kind = PointerKind::Touch;
    s.on_focus(id(2));
    assert!(edit_of(&s, 1).is_caret());
    assert_eq!(edit_of(&s, 1).cursor_byte_index, 4);

    let mut m = state(vec![input(1, "hello", false), input(2, "x", false)]);
    m.on_focus(id(1));
    m.fields[0].edit.as_mut().unwrap().set_selection(1, 4);
    m.on_focus(id(2));
    assert_eq!(m.fields[0].edit.as_ref().unwrap().selection_range(), Some((1, 4)));
}

#[test]
fn key_down_reaches_the_focused_element_unless_a_selection_gesture_took_it() {
    let mut s = state(vec![input(1, "a", false)]);
    s.on_key_down("a", 0, None, NONE, None);
    assert_eq!(s.last_input_modality, InputModality::Keyboard);
    assert!(s.events.is_empty());
    s.on_focus(id(1));
    s.drain_events();
    s.on_key_down("Enter", 2, None, NONE, None);
    assert_eq!(
        s.events,
        vec![InteractionEvent::KeyDown { target_id: id(1), key: "Enter".to_string(), modifiers: 2 }]
    );
    s.drain_events();
    s.selection = Some(Selection::caret(SelectionPoint::new(id(9), 4)));
    s.on_key_down("a", MOD_CTRL, Some("héllo world"), NONE, None);
    assert_eq!(
        s.selection,
        Some(Selection { anchor: SelectionPoint::new(id(9), 0), focus: SelectionPoint::new(id(9), 12) })
    );
    assert_eq!(s.drain_events(), vec![InteractionEvent::SelectionChange]);
}

#[test]
fn shift_arrows_move_the_document_selection_focus() {
    let mut s = state(vec![]);
    let a = SelectionPoint::new(id(9), 0);
    s.selection = Some(Selection::caret(a));
    let text = Some("ab cd");
    s.on_key_down("ArrowRight", MOD_SHIFT, text, NONE, None);
    assert_eq!(s.selection, Some(Selection { anchor: a, focus: SelectionPoint::new(id(9), 1) }));
    s.on_key_down("ArrowRight", MOD_SHIFT | MOD_ALT, text, NONE, None);
    assert_eq!(s.selection, Some(Selection { anchor: a, focus: SelectionPoint::new(id(9), 2) }));
    s.on_key_down("ArrowLeft", MOD_SHIFT, text, NONE, None);
    assert_eq!(s.selection, Some(Selection { anchor: a, focus: SelectionPoint::new(id(9), 1) }));
    s.on_key_down("ArrowRight", 0, text, NONE, None);
    assert_eq!(s.selection, Some(Selection { anchor: a, focus: SelectionPoint::new(id(9), 1) }));
    let clip = TestClipboard::holding(None);
    s.on_key_down("C", MOD_META, text, Some(&clip), None);
    assert_eq!(s.events.len(), 3);
}

#[test]
fn typed_text_replaces_the_selection_and_reports_the_whole_value() {
    let mut s = state(vec![input(1, "hello", false)]);
    s.fields[0].edit.as_mut().unwrap().set_selection(1, 4);
    s.on_text_input(id(1), "ipp");
    assert_eq!(edit_of(&s, 1).text_content, "hippo");
    s.on_text_input(id(9), "z");
    assert_eq!(
        s.events,
        vec![
            InteractionEvent::TextInput { target_id: id(1), text: "hippo".to_string() },
            InteractionEvent::TextInput { target_id: id(9), text: String::new() },
        ]
    );
}

#[test]
fn composition_end_commits_then_reports_the_value() {
    let mut s = state(vec![input(1, "a", false)]);
    s.on_composition_start(id(1), "k");
    s.on_composition_update(id(1), "か");
    assert_eq!(edit_of(&s, 1).display_text(), "aか");
    s.on_composition_end(id(1), "漢");
    assert_eq!(edit_of(&s, 1).text_content, "a漢");
    assert!(edit_of(&s, 1).preedit.is_none());
    assert_eq!(
        s.events,
        vec![
            InteractionEvent::CompositionStart { target_id: id(1), text: "k".to_string() },
            InteractionEvent::CompositionUpdate { target_id: id(1), text: "か".to_string() },
            InteractionEvent::CompositionEnd { target_id: id(1), text: "漢".to_string() },
            InteractionEvent::TextInput { target_id: id(1), text: "a漢".to_string() },
        ]
    );
}

#[test]
fn clearing_the_selection_notifies_once() {
    let mut s = state(vec![]);
    s.clear_selection();
    assert!(s.events.is_empty());
    s.selection = Some(Selection::caret(SelectionPoint::new(id(7), 2)));
    s.clear_selection();
    s.clear_selection();
    assert!(s.selection.is_none());
    assert_eq!(s.events, vec![InteractionEvent::SelectionChange]);
}

#[test]
fn a_press_drops_a_caret_and_shift_extends_from_the_anchor() {
    let mut e = edit("hello world");
    assert!(begin_edit_selection(&mut e, 3, false, TapPhase::Caret, false));
    assert_eq!((e.selection_anchor, e.cursor_byte_index), (3, 3));
    assert!(begin_edit_selection(&mut e, 8, true, TapPhase::Word, false));
    assert_eq!((e.selection_anchor, e.cursor_byte_index), (3, 8));
}

#[test]
fn repeated_presses_select_word_then_line_with_a_mouse_only() {
    let mut e = edit("hello world\nnext line");
    assert!(!begin_edit_selection(&mut e, 8, false, TapPhase::Word, false));
    assert_eq!((e.selection_anchor, e.cursor_byte_index), (6, 11));
    assert!(!begin_edit_selection(&mut e, 8, false, TapPhase::Paragraph, false));
    assert_eq!((e.selection_anchor, e.cursor_byte_index), (0, 11));
    assert!(begin_edit_selection(&mut e, 8, false, TapPhase::Word, true));
    assert_eq!((e.selection_anchor, e.cursor_byte_index), (8, 8));
}

#[test]
fn intents_dispatch_to_focus_edit_and_value_steps() {
    let mut s = state(vec![input(1, "ab", false)]);
    assert_eq!(s.apply_intent(InteractionIntent::Focus(id(1)), NONE, None), InteractionResult::Consumed);
    assert_eq!(s.focused_element, Some(id(1)));
    assert_eq!(
        s.apply_intent(
            InteractionIntent::Edit { target: id(1), intent: EditIntent::InsertLineBreak },
            NONE,
            None
        ),
        InteractionResult::Ignored
    );
    assert_eq!(
        s.apply_intent(
            InteractionIntent::Edit { target: id(1), intent: EditIntent::SelectAll },
            NONE,
            None
        ),
        InteractionResult::Consumed
    );
    assert_eq!(edit_of(&s, 1).selection_range(), Some((0, 2)));
    assert_eq!(
        s.apply_intent(
            InteractionIntent::SetValue { target: id(1), value: "ab".to_string() },
            NONE,
            None
        ),
        InteractionResult::Consumed
    );
    assert_eq!(edit_of(&s, 1).cursor_byte_index, 2);
    assert!(edit_of(&s, 1).is_caret());
    assert_eq!(s.drain_events(), vec![InteractionEvent::Focus { target_id: id(1) }]);
}

#[test]
fn selection_ends_come_in_document_order() {
    let mut s = state(vec![]);
    assert_eq!(s.selection_ordered(&[], &[]), None);
    s.selection = Some(Selection {
        anchor: SelectionPoint::new(id(5), 7),
        focus: SelectionPoint::new(id(5), 2),
    });
    assert_eq!(
        s.selection_ordered(&[0], &[0]),
        Some((SelectionPoint::new(id(5), 2), SelectionPoint::new(id(5), 7)))
    );
    let a = SelectionPoint::new(id(8), 1);
    let f = SelectionPoint::new(id(6), 4);
    s.selection = Some(Selection { anchor: a, focus: f });
    assert_eq!(s.selection_ordered(&[0, 2], &[0, 1, 5]), Some((f, a)));
    assert_eq!(s.selection_ordered(&[0, 1], &[0, 1, 5]), Some((a, f)));
    assert_eq!(s.selection_ordered(&[1], &[0, 9]), Some((f, a)));
}

#[test]
fn a_programmatic_range_stays_inside_one_selection_region() {
    let free = SelectionFacts { excluded: false, region: None };
    let boxed = SelectionFacts { excluded: false, region: Some(id(1)) };
    let none = SelectionFacts { excluded: true, region: None };
    let a = SelectionPoint::new(id(2), 0);
    let f = SelectionPoint::new(id(3), 4);
    let mut s = state(vec![]);
    assert!(!s.set_selection_range(a, f, free, boxed));
    assert!(!s.set_selection_range(a, f, none, free));
    assert!(s.events.is_empty());
    assert!(s.set_selection_range(a, f, free, free));
    assert!(s.set_selection_range(a, f, boxed, boxed));
    assert_eq!(s.selection, Some(Selection { anchor: a, focus: f }));
    assert_eq!(s.events, vec![InteractionEvent::SelectionChange]);
}

#[test]
fn presses_on_selectable_text_cycle_caret_word_line() {
    let mut s = state(vec![input(1, "hello", false)]);
    s.fields[0].edit.as_mut().unwrap().set_selection(1, 4);
    let mut taps = TapCounter::new();
    let text = "one two\nthree";
    let p = SelectionPoint::new(id(9), 5);
    assert!(s.begin_selection_at(&mut taps, Some(p), false, false, Some(text)));
    assert!(edit_of(&s, 1).is_caret());
    assert_eq!(s.selection, Some(Selection::caret(p)));
    assert!(!s.begin_selection_at(&mut taps, Some(p), false, true, Some(text)));
    assert_eq!(
        s.selection,
        Some(Selection { anchor: SelectionPoint::new(id(9), 4), focus: SelectionPoint::new(id(9), 7) })
    );
    assert!(!s.begin_selection_at(&mut taps, Some(p), false, true, Some(text)));
    assert_eq!(
        s.selection,
        Some(Selection { anchor: SelectionPoint::new(id(9), 0), focus: SelectionPoint::new(id(9), 7) })
    );
    assert_eq!(s.events, vec![InteractionEvent::SelectionChange; 3]);
}

#[test]
fn a_shift_press_extends_within_the_anchor_block_and_off_text_clears() {
    let mut s = state(vec![]);
    let mut taps = TapCounter::new();
    let a = SelectionPoint::new(id(9), 1);
    let f = SelectionPoint::new(id(9), 6);
    s.begin_selection_at(&mut taps, Some(a), false, false, None);
    assert!(s.begin_selection_at(&mut taps, Some(f), true, true, None));
    assert_eq!(s.selection, Some(Selection { anchor: a, focus: f }));
    assert_eq!(taps.count, 1);
    let elsewhere = SelectionPoint::new(id(8), 2);
    assert!(s.begin_selection_at(&mut taps, Some(elsewhere), true, false, None));
    assert_eq!(s.selection, Some(Selection::caret(elsewhere)));
    assert!(!s.begin_selection_at(&mut taps, None, false, false, None));
    assert_eq!(s.selection, None);
    assert_eq!(taps.count, 0);
}

#[test]
fn the_active_edit_selection_text_is_the_focused_inputs_range() {
    let mut s = state(vec![input(1, "héllo", false), input(2, "abc", false)]);
    assert_eq!(s.edit_selection_text(), None);
    s.fields[0].edit.as_mut().unwrap().set_selection(6, 1);
    assert_eq!(s.edit_selection_text(), None);
    s.on_focus(id(1));
    assert_eq!(s.edit_selection_text(), Some("éllo".to_string()));
    s.on_focus(id(2));
    assert_eq!(s.edit_selection_text(), None);
}

#[test]
fn the_caret_shows_with_the_focus_and_hides_on_blur() {
    let mut s = state(vec![input(1, "a", false), input(2, "b", false)]);
    s.on_focus(id(1));
    assert!(s.fields[0].cursor_visible);
    s.on_focus(id(2));
    assert!(!s.fields[0].cursor_visible);
    assert!(s.fields[1].cursor_visible);
    s.on_blur(id(2));
    assert!(!s.fields[1].cursor_visible);
}

#[test]
fn copy_prefers_the_read_only_selection_text() {
    let mut s = state(vec![input(1, "hello", false)]);
    s.on_focus(id(1));
    s.fields[0].edit.as_mut().unwrap().set_selection(1, 4);
    s.selection = Some(Selection {
        anchor: SelectionPoint::new(id(7), 0),
        focus: SelectionPoint::new(id(7), 3),
    });
    assert_eq!(s.active_selection_text(Some("abc")), Some("abc".to_string()));
    assert_eq!(s.active_selection_text(None), Some("ell".to_string()));
    let clip = TestClipboard::holding(None);
    s.on_key_down("c", MOD_CTRL, None, Some(&clip), Some("abc"));
    assert!(s.apply_edit_intent(id(1), EditIntent::Copy, Some(&clip), Some("xyz")));
    assert_eq!(*clip.written.borrow(), vec!["abc".to_string(), "xyz".to_string()]);
    s.selection = None;
    assert_eq!(s.active_selection_text(Some("abc")), Some("ell".to_string()));
}

#[test]
fn selected_text_joins_the_covered_slices_per_block() {
    assert_eq!(selected_text(&[]), None);
    assert_eq!(selected_text(&[("abc".to_string(), Some((1, 1)))]), None);
    assert_eq!(selected_text(&[("hello".to_string(), Some((1, 4)))]), Some("ell".to_string()));
    assert_eq!(
        selected_text(&[
            ("first".to_string(), Some((2, 5))),
            ("skip".to_string(), None),
            ("middle".to_string(), Some((0, 6))),
            ("last".to_string(), Some((0, 2))),
        ]),
        Some("rst\nmiddle\nla".to_string())
    );
}

#[test]
fn hover_enters_once_and_leaves_on_cancel() {
    let mut s = state(vec![]);
    s.on_hover_enter(id(1));
    s.on_hover_enter(id(2));
    s.on_hover_enter(id(1));
    assert_eq!(s.hovered, vec![id(1), id(2)]);
    s.on_hover_leave(id(1));
    s.on_hover_leave(id(1));
    assert_eq!(s.hovered, vec![id(2)]);
    s.on_hover_enter(id(3));
    s.active_element = Some(id(3));
    assert_eq!(
        s.apply_intent(InteractionIntent::PointerCancel, NONE, None),
        InteractionResult::Consumed
    );
    assert!(s.hovered.is_empty());
    assert_eq!(s.active_element, None);
    assert_eq!(
        s.drain_events(),
        vec![
            InteractionEvent::HoverEnter { target_id: id(1) },
            InteractionEvent::HoverEnter { target_id: id(2) },
            InteractionEvent::HoverLeave { target_id: id(1) },
            InteractionEvent::HoverEnter { target_id: id(3) },
            InteractionEvent::HoverLeave { target_id: id(2) },
            InteractionEvent::HoverLeave { target_id: id(3) },
            InteractionEvent::ActiveEnd { target_id: id(3) },
        ]
    );
    s.on_hover_enter(id(4));
    s.on_pointer_leave();
    assert!(s.hovered.is_empty());
    s.prepare_deferred_pointer_down(PointerKind::Pen);
    assert_eq!(s.last_pointer_kind, PointerKind::Pen);
}

#[test]
fn selection_chrome_shows_for_touch_only() {
    let mut s = state(vec![input(1, "hello", false)]);
    s.on_focus(id(1));
    s.fields[0].edit.as_mut().unwrap().set_selection(1, 3);
    assert_eq!(s.toolbar_actions(), None);
    s.last_pointer_kind = PointerKind::Touch;
    assert_eq!(
        s.toolbar_actions(),
        Some(vec![ToolbarAction::Cut, ToolbarAction::Copy, ToolbarAction::Paste, ToolbarAction::SelectAll])
    );
    assert!(!s.shows_selection_handles());
    s.selection = Some(Selection {
        anchor: SelectionPoint::new(id(7), 0),
        focus: SelectionPoint::new(id(7), 2),
    });
    assert_eq!(s.toolbar_actions(), Some(vec![ToolbarAction::Copy, ToolbarAction::SelectAll]));
    assert!(s.shows_selection_handles());
    s.selection = Some(Selection::caret(SelectionPoint::new(id(7), 2)));
    assert!(!s.shows_selection_handles());
}

#[test]
fn press_then_release_clicks_at_the_press_point() {
    let mut s = state(vec![]);
    let (px, py) = (1.5f32.to_bits(), 2.5f32.to_bits());
    let (ux, uy) = (9.0f32.to_bits(), 9.0f32.to_bits());
    assert_eq!(
        s.apply_intent(
            InteractionIntent::PointerDown { target: Some(id(7)), x: px, y: py, pointer_kind: PointerKind::Touch },
            NONE,
            None,
        ),
        InteractionResult::Consumed
    );
    assert_eq!(s.active_element, Some(id(7)));
    assert_eq!(s.focused_element, Some(id(7)));
    assert_eq!(s.last_input_modality, InputModality::Pointer);
    assert_eq!(
        s.drain_events(),
        vec![
            InteractionEvent::PointerDown { target_id: id(7), x: px, y: py, pointer_kind: PointerKind::Touch },
            InteractionEvent::ActiveStart { target_id: id(7) },
            InteractionEvent::Focus { target_id: id(7) },
        ]
    );
    s.apply_intent(
        InteractionIntent::PointerUp { target: Some(id(8)), x: ux, y: uy, pointer_kind: PointerKind::Touch },
        NONE,
        None,
    );
    assert_eq!(s.active_element, None);
    assert_eq!(s.active_press_pos, None);
    assert_eq!(
        s.drain_events(),
        vec![
            InteractionEvent::PointerUp { target_id: id(7), x: ux, y: uy, pointer_kind: PointerKind::Touch },
            InteractionEvent::Click { target_id: id(7), x: px, y: py },
            InteractionEvent::ActiveEnd { target_id: id(7) },
        ]
    );
}

#[test]
fn release_without_a_press_does_not_click() {
    let mut s = state(vec![]);
    s.pointer_up(Some(id(3)), 0, 0);
    assert_eq!(
        s.drain_events(),
        vec![
            InteractionEvent::PointerUp { target_id: id(3), x: 0, y: 0, pointer_kind: PointerKind::Mouse },
            InteractionEvent::ActiveEnd { target_id: id(3) },
        ]
    );
    s.pointer_up(None, 0, 0);
    assert!(s.drain_events().is_empty());
}

#[test]
fn press_on_nothing_blurs_the_focus() {
    let mut s = state(vec![]);
    s.on_focus(id(2));
    s.drain_events();
    s.pointer_down_on_target(None, 0, 0);
    assert_eq!(s.focused_element, None);
    assert_eq!(s.drain_events(), vec![InteractionEvent::Blur { target_id: id(2) }]);
}

#[test]
fn cancel_after_a_press_ends_it_without_a_click() {
    let mut s = state(vec![]);
    s.pointer_down_on_target(Some(id(4)), 1, 1);
    s.drain_events();
    s.apply_intent(InteractionIntent::PointerCancel, NONE, None);
    assert_eq!(s.active_press_pos, None);
    s.pointer_up(None, 0, 0);
    let events = s.drain_events();
    assert!(!events.iter().any(|e| matches!(e, InteractionEvent::Click { .. })));
}

#[test]
fn a_click_intent_is_reported_as_given() {
    let mut s = state(vec![]);
    s.apply_intent(InteractionIntent::Click { target: id(5), x: 3, y: 4 }, NONE, None);
    assert_eq!(s.drain_events(), vec![InteractionEvent::Click { target_id: id(5), x: 3, y: 4 }]);
}
