use hayate_core::kind::{BaseLayout, ElementKind};
use hayate_core::style::{CursorValue, UserSelectValue};

const ALL: [ElementKind; 6] = [
    ElementKind::View,
    ElementKind::Text,
    ElementKind::Image,
    ElementKind::Button,
    ElementKind::TextInput,
    ElementKind::ScrollView,
];

#[test]
fn wire_values_decode_in_declaration_order() {
    for (i, kind) in ALL.iter().enumerate() {
        assert_eq!(ElementKind::from_u32(i as u32), Some(*kind));
    }
    assert_eq!(ElementKind::from_u32(6), None);
    assert_eq!(ElementKind::from_u32(u32::MAX), None);
}

#[test]
fn kind_defaults_follow_the_kind_table() {
    assert_eq!(ElementKind::Button.default_cursor(), CursorValue::Pointer);
    assert_eq!(ElementKind::TextInput.default_cursor(), CursorValue::Text);
    assert_eq!(ElementKind::View.default_cursor(), CursorValue::Default);
    assert_eq!(ElementKind::Image.default_user_select(), UserSelectValue::NoSelect);
    assert_eq!(ElementKind::Button.default_user_select(), UserSelectValue::NoSelect);
    assert_eq!(ElementKind::ScrollView.default_user_select(), UserSelectValue::Text);
    for kind in ALL {
        assert_eq!(kind.accepts_text_input(), kind == ElementKind::TextInput);
        assert_eq!(kind.carries_draw(), kind == ElementKind::View);
    }
}

#[test]
fn text_like_kinds_are_text_button_and_text_input() {
    let text_like: Vec<ElementKind> = ALL.into_iter().filter(|k| k.is_text_like()).collect();
    assert_eq!(
        text_like,
        vec![ElementKind::Text, ElementKind::Button, ElementKind::TextInput]
    );
}

#[test]
fn base_layout_defaults_per_kind() {
    assert_eq!(ElementKind::Button.base_layout(), BaseLayout::CenterCrossStartMain);
    assert_eq!(ElementKind::ScrollView.base_layout(), BaseLayout::ScrollBothAxes);
    for k in [ElementKind::View, ElementKind::Text, ElementKind::Image, ElementKind::TextInput] {
        assert_eq!(k.base_layout(), BaseLayout::EngineDefault);
    }
}
