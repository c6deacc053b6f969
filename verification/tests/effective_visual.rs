use hayate_core::ambient_defaults::{black, AmbientDefaults};
use hayate_core::effective_visual::{
    apply_text_inheritance, child_inherited_context, InheritedVisualContext, TextLocalInherited,
    TextVisual,
};
use hayate_core::kind::ElementKind;
use hayate_core::style::{FontStyleValue, TextDecorationValue};

fn bits(c: (f32, f32, f32, f32)) -> (u32, u32, u32, u32) {
    (c.0.to_bits(), c.1.to_bits(), c.2.to_bits(), c.3.to_bits())
}

fn empty() -> TextVisual {
    TextVisual {
        text_color: None,
        font_size: None,
        font_weight: None,
        font_family: None,
        font_style: None,
        text_decoration: None,
        default_color: None,
        default_font_size: None,
        default_font_family: None,
        default_font_weight: None,
    }
}

#[test]
fn hard_defaults_are_black_sixteen_regular() {
    let h = AmbientDefaults::hard();
    assert_eq!(h.color, bits((0.0, 0.0, 0.0, 1.0)));
    assert_eq!(black(), bits((0.0, 0.0, 0.0, 1.0)));
    assert_eq!(f32::from_bits(h.font_size), 16.0);
    assert_eq!(h.font_weight.map(f32::from_bits), Some(400.0));
    assert_eq!(h.font_family, None);
}

#[test]
fn merge_replaces_only_the_defaults_an_element_sets() {
    let h = AmbientDefaults::hard();
    let mut v = empty();
    v.default_font_size = Some(20.0f32.to_bits());
    v.default_font_family = Some("Serif".to_string());
    let m = h.merge_visual(&v);
    assert_eq!(f32::from_bits(m.font_size), 20.0);
    assert_eq!(m.font_family.as_deref(), Some("Serif"));
    assert_eq!(m.color, h.color);
    assert_eq!(m.font_weight, h.font_weight);
}

#[test]
fn root_context_fills_from_the_ambient_defaults() {
    let ctx = InheritedVisualContext::root();
    let mut own = empty();
    own.font_style = None;
    let v = apply_text_inheritance(&ctx, &own);
    assert_eq!(v.text_color, Some(bits((0.0, 0.0, 0.0, 1.0))));
    assert_eq!(v.font_size.map(f32::from_bits), Some(16.0));
    assert_eq!(v.font_weight.map(f32::from_bits), Some(400.0));
    assert_eq!(v.font_family, None);
    assert_eq!(v.font_style, None);
    assert_eq!(v.text_decoration, None);
}

#[test]
fn own_fields_win_over_inheritance() {
    let ctx = InheritedVisualContext::root();
    let mut own = empty();
    own.text_color = Some(bits((1.0, 0.0, 0.0, 1.0)));
    own.font_size = Some(12.0f32.to_bits());
    let v = apply_text_inheritance(&ctx, &own);
    assert_eq!(v.text_color, Some(bits((1.0, 0.0, 0.0, 1.0))));
    assert_eq!(v.font_size.map(f32::from_bits), Some(12.0));
}

#[test]
fn a_text_parent_hands_on_its_style() {
    let root = InheritedVisualContext::root();
    let mut parent_own = empty();
    parent_own.text_color = Some(bits((0.0, 0.0, 1.0, 1.0)));
    parent_own.font_style = Some(FontStyleValue::Italic);
    parent_own.text_decoration = Some(TextDecorationValue::Underline);
    parent_own.default_font_family = Some("Mono".to_string());
    let parent_base = apply_text_inheritance(&root, &parent_own);
    let child = child_inherited_context(&root, ElementKind::Text, &parent_base, &parent_own);
    let v = apply_text_inheritance(&child, &empty());
    assert_eq!(v.text_color, Some(bits((0.0, 0.0, 1.0, 1.0))));
    assert_eq!(v.font_style, Some(FontStyleValue::Italic));
    assert_eq!(v.text_decoration, Some(TextDecorationValue::Underline));
    // The text parent sets no family of its own, so the ambient default applies.
    assert_eq!(v.font_family.as_deref(), Some("Mono"));
}

#[test]
fn a_block_parent_hands_on_only_ambient_defaults() {
    let root = InheritedVisualContext::root();
    let mut parent_own = empty();
    parent_own.text_color = Some(bits((0.0, 1.0, 0.0, 1.0)));
    parent_own.default_color = Some(bits((0.5, 0.5, 0.5, 1.0)));
    let parent_base = apply_text_inheritance(&root, &parent_own);
    let child = child_inherited_context(&root, ElementKind::View, &parent_base, &parent_own);
    assert!(child.text_local.is_none());
    let v = apply_text_inheritance(&child, &empty());
    assert_eq!(v.text_color, Some(bits((0.5, 0.5, 0.5, 1.0))));
}

#[test]
fn text_local_defaults_for_unset_color_and_size() {
    let t = TextLocalInherited::from_inherited_base(&empty());
    assert_eq!(t.color, bits((0.0, 0.0, 0.0, 1.0)));
    assert_eq!(f32::from_bits(t.font_size), 16.0);
}
