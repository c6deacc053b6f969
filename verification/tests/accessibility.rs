use hayate_core::accessibility::{
    aria_role, element_value, implicit_role, map_action_request, resolve_role, AccessRole,
    AccessibilityAction, ActionRequest, RequestedAction,
};
use hayate_core::edit_state::EditState;
use hayate_core::interaction::{InteractionEvent, InteractionState, TextField};
use hayate_core::kind::ElementKind;
use hayate_core::ElementId;

fn action_request(action: RequestedAction, target: ElementId) -> ActionRequest {
    ActionRequest { action, target_node: target.to_u64(), value: None }
}

#[test]
fn maps_focus_action_to_core_focus_resolving_element_id() {
    let target = ElementId::from_u64(7);
    let mapped = map_action_request(&action_request(RequestedAction::Focus, target));
    assert_eq!(mapped, AccessibilityAction::Focus { target });
}

#[test]
fn maps_click_action_to_core_click_resolving_element_id() {
    let target = ElementId::from_u64(9);
    let mapped = map_action_request(&action_request(RequestedAction::Click, target));
    assert_eq!(mapped, AccessibilityAction::Click { target });
}

#[test]
fn maps_set_value_action_with_value_payload() {
    let target = ElementId::from_u64(11);
    let req = ActionRequest {
        action: RequestedAction::SetValue,
        target_node: target.to_u64(),
        value: Some("hello".to_string()),
    };
    assert_eq!(
        map_action_request(&req),
        AccessibilityAction::SetValue { target, value: "hello".to_string() }
    );
}

#[test]
fn maps_set_value_without_value_payload_to_ignored() {
    let req = ActionRequest {
        action: RequestedAction::SetValue,
        target_node: 5,
        value: None,
    };
    assert_eq!(
        map_action_request(&req),
        AccessibilityAction::Ignored,
        "SetValue with no string value has nothing to set",
    );
}

#[test]
fn maps_scroll_into_view_action_to_core_scroll_into_view_resolving_element_id() {
    let target = ElementId::from_u64(13);
    let mapped = map_action_request(&action_request(RequestedAction::ScrollIntoView, target));
    assert_eq!(mapped, AccessibilityAction::ScrollIntoView { target });
}

#[test]
fn folds_unsupported_actions_to_ignored() {
    let node = ElementId::from_u64(3);
    assert_eq!(
        map_action_request(&action_request(RequestedAction::Other, node)),
        AccessibilityAction::Ignored,
    );
    let with_value = ActionRequest {
        action: RequestedAction::Other,
        target_node: 3,
        value: Some("x".to_string()),
    };
    assert_eq!(map_action_request(&with_value), AccessibilityAction::Ignored);
}

#[test]
fn element_values_by_kind() {
    let label = Some("OK".to_string());
    assert_eq!(element_value(ElementKind::Text, &label, &None), label);
    assert_eq!(element_value(ElementKind::Button, &label, &None), label);
    assert_eq!(element_value(ElementKind::View, &label, &None), None);
    assert_eq!(element_value(ElementKind::TextInput, &label, &None), None);
    let mut edit = EditState::default();
    edit.set("ab");
    edit.set_selection(1, 1);
    edit.set_preedit("X");
    assert_eq!(
        element_value(ElementKind::TextInput, &None, &Some(edit)),
        Some("aXb".to_string())
    );
}

#[test]
fn roles_resolve_root_then_explicit_then_implicit() {
    assert_eq!(aria_role("textbox"), Some(AccessRole::TextInput));
    assert_eq!(aria_role("img"), Some(AccessRole::Image));
    assert_eq!(aria_role("listitem"), Some(AccessRole::ListItem));
    assert_eq!(aria_role("alert-dialog"), Some(AccessRole::AlertDialog));
    assert_eq!(aria_role("banner"), None);
    assert_eq!(implicit_role(ElementKind::View), AccessRole::GenericContainer);
    assert_eq!(implicit_role(ElementKind::Text), AccessRole::Label);
    assert_eq!(resolve_role(ElementKind::Button, Some("link"), true), AccessRole::Window);
    assert_eq!(resolve_role(ElementKind::Button, Some("link"), false), AccessRole::Link);
    assert_eq!(resolve_role(ElementKind::Button, Some("banner"), false), AccessRole::Button);
    assert_eq!(resolve_role(ElementKind::ScrollView, None, false), AccessRole::ScrollView);
}

fn field(id: u64, kind: ElementKind, text: &str) -> TextField {
    let edit = if kind == ElementKind::TextInput {
        let mut e = EditState::default();
        e.set(text);
        Some(e)
    } else {
        None
    };
    TextField { id: ElementId::from_u64(id), kind, multiline: false, edit, cursor_visible: false }
}

fn set_value_request(target: ElementId, value: &str) -> ActionRequest {
    ActionRequest {
        action: RequestedAction::SetValue,
        target_node: target.to_u64(),
        value: Some(value.to_string()),
    }
}

#[test]
fn on_accessibility_action_focus_drives_focus_state_machine() {
    let a = ElementId::from_u64(2);
    let b = ElementId::from_u64(3);
    let mut s = InteractionState::new(vec![
        field(2, ElementKind::TextInput, ""),
        field(3, ElementKind::TextInput, ""),
    ]);
    s.on_accessibility_action(&action_request(RequestedAction::Focus, a));
    assert_eq!(s.focused_element, Some(a));
    assert_eq!(s.drain_events(), vec![InteractionEvent::Focus { target_id: a }]);
    s.on_accessibility_action(&action_request(RequestedAction::Focus, b));
    assert_eq!(s.focused_element, Some(b));
    assert_eq!(
        s.drain_events(),
        vec![InteractionEvent::Blur { target_id: a }, InteractionEvent::Focus { target_id: b }]
    );
}

#[test]
fn on_accessibility_action_set_value_replaces_content_and_delivers_text_input() {
    let input = ElementId::from_u64(2);
    let mut s = InteractionState::new(vec![field(2, ElementKind::TextInput, "old")]);
    s.on_accessibility_action(&set_value_request(input, "new value"));
    assert_eq!(s.fields[0].edit.as_ref().unwrap().display_text(), "new value");
    assert_eq!(
        s.drain_events(),
        vec![InteractionEvent::TextInput { target_id: input, text: "new value".to_string() }]
    );
}

#[test]
fn on_accessibility_action_set_value_finalizes_active_preedit_then_replaces() {
    let input = ElementId::from_u64(2);
    let mut s = InteractionState::new(vec![field(2, ElementKind::TextInput, "abc")]);
    s.fields[0].edit.as_mut().unwrap().set_preedit("DEF");
    s.on_accessibility_action(&set_value_request(input, "xyz"));
    assert_eq!(s.fields[0].edit.as_ref().unwrap().display_text(), "xyz");
    s.fields[0].edit.as_mut().unwrap().set_preedit("");
    assert_eq!(s.fields[0].edit.as_ref().unwrap().display_text(), "xyz");
}

#[test]
fn on_accessibility_action_set_value_on_non_text_input_is_noop() {
    let view = ElementId::from_u64(2);
    let mut s = InteractionState::new(vec![field(2, ElementKind::View, "")]);
    s.on_accessibility_action(&set_value_request(view, "nope"));
    assert!(s.drain_events().is_empty());
}

#[test]
fn geometric_accessibility_actions_are_handed_back() {
    let target = ElementId::from_u64(4);
    let mut s = InteractionState::new(vec![field(4, ElementKind::Button, "")]);
    assert_eq!(
        s.on_accessibility_action(&action_request(RequestedAction::Click, target)),
        AccessibilityAction::Click { target }
    );
    assert_eq!(
        s.on_accessibility_action(&action_request(RequestedAction::ScrollIntoView, target)),
        AccessibilityAction::ScrollIntoView { target }
    );
    assert!(s.events.is_empty());
}
