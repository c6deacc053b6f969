use hayate_core::style::{
    pseudo_affects_text_shaping, style_prop_key, unset_removes, GridLineValue, GridPlacementValue,
    StylePropKind, StylePropTag,
};

#[test]
fn grid_line_css_text() {
    assert_eq!(GridLineValue::Auto.to_css(), "auto");
    assert_eq!(GridLineValue::Line(2).to_css(), "2");
    assert_eq!(GridLineValue::Line(-1).to_css(), "-1");
    assert_eq!(GridLineValue::Line(0).to_css(), "0");
    assert_eq!(GridLineValue::Line(i32::MIN).to_css(), i32::MIN.to_string());
    assert_eq!(GridLineValue::Line(1234567).to_css(), "1234567");
    assert_eq!(GridLineValue::Span(2).to_css(), "span 2");
    assert_eq!(GridLineValue::Span(u32::MAX).to_css(), format!("span {}", u32::MAX));
}

#[test]
fn grid_placement_builders() {
    assert_eq!(
        GridPlacementValue::line(3),
        GridPlacementValue { start: GridLineValue::Line(3), end: GridLineValue::Auto }
    );
    assert_eq!(
        GridPlacementValue::span(2),
        GridPlacementValue { start: GridLineValue::Span(2), end: GridLineValue::Auto }
    );
    assert_eq!(
        GridPlacementValue::new(GridLineValue::Line(1), GridLineValue::Span(3)),
        GridPlacementValue { start: GridLineValue::Line(1), end: GridLineValue::Span(3) }
    );
    assert_eq!(
        GridPlacementValue::start(GridLineValue::Auto),
        GridPlacementValue { start: GridLineValue::Auto, end: GridLineValue::Auto }
    );
}

#[test]
fn style_prop_keys_are_css_names() {
    assert_eq!(style_prop_key(StylePropTag::BackgroundColor), "background-color");
    assert_eq!(style_prop_key(StylePropTag::Opacity), "opacity");
    assert_eq!(style_prop_key(StylePropTag::GridTemplateColumns), "grid-template-columns");
    assert_eq!(style_prop_key(StylePropTag::FontSize), "font-size");
    assert_eq!(style_prop_key(StylePropTag::MaxLines), "max-lines");
    assert_eq!(style_prop_key(StylePropTag::DefaultFontWeight), "default-font-weight");
    assert_eq!(style_prop_key(StylePropTag::ZIndex), "z-index");
    assert_eq!(style_prop_key(StylePropTag::TransitionTiming), "transition-timing");
}

#[test]
fn only_text_properties_make_a_pseudo_state_reshape_text() {
    assert!(!pseudo_affects_text_shaping(&[]));
    assert!(!pseudo_affects_text_shaping(&[StylePropTag::BackgroundColor, StylePropTag::Opacity]));
    assert!(pseudo_affects_text_shaping(&[StylePropTag::Opacity, StylePropTag::FontWeight]));
    assert!(pseudo_affects_text_shaping(&[StylePropTag::FontSize]));
}

#[test]
fn unset_removes_the_matching_property_only() {
    assert!(unset_removes(StylePropKind::Color, StylePropTag::Color));
    assert!(!unset_removes(StylePropKind::Color, StylePropTag::BackgroundColor));
    assert!(unset_removes(StylePropKind::FontSize, StylePropTag::FontSize));
    assert!(!unset_removes(StylePropKind::FontSize, StylePropTag::FontWeight));
}
