use hayate_core::inline_text::{ifc_root, is_ifc_root, is_inline_text_element, resolve_line_clamp, NodeFacts};
use hayate_core::kind::ElementKind;
use hayate_core::style::TextOverflowValue;
use hayate_core::ElementId;

fn id(raw: u64) -> ElementId {
    ElementId::from_u64(raw)
}

fn node(kind: ElementKind, parent: Option<u64>) -> NodeFacts {
    NodeFacts {
        kind,
        parent: parent.map(id),
        max_lines: None,
        text_overflow: TextOverflowValue::Clip,
    }
}

/// view(1) > text(2) > text(3) > text(4); view(1) > button(5)
fn tree() -> Vec<(ElementId, NodeFacts)> {
    vec![
        (id(1), node(ElementKind::View, None)),
        (id(2), node(ElementKind::Text, Some(1))),
        (id(3), node(ElementKind::Text, Some(2))),
        (id(4), node(ElementKind::Text, Some(3))),
        (id(5), node(ElementKind::Button, Some(1))),
    ]
}

#[test]
fn nested_text_is_inline_and_the_outer_text_is_the_root() {
    let t = tree();
    assert!(!is_inline_text_element(&t, id(2)));
    assert!(is_inline_text_element(&t, id(3)));
    assert!(is_ifc_root(&t, id(2)));
    assert!(!is_ifc_root(&t, id(4)));
    assert!(!is_ifc_root(&t, id(1)));
    assert_eq!(ifc_root(&t, id(4)), Some(id(2)));
    assert_eq!(ifc_root(&t, id(2)), Some(id(2)));
    assert_eq!(ifc_root(&t, id(5)), None);
    assert_eq!(ifc_root(&t, id(9)), None);
}

#[test]
fn line_clamp_is_inherited_from_the_containing_block() {
    let mut t = tree();
    assert_eq!(resolve_line_clamp(&t, id(2)), (None, TextOverflowValue::Clip));
    t[0].1.max_lines = Some(3);
    t[0].1.text_overflow = TextOverflowValue::Ellipsis;
    assert_eq!(resolve_line_clamp(&t, id(2)), (Some(3), TextOverflowValue::Ellipsis));
    t[1].1.max_lines = Some(1);
    assert_eq!(resolve_line_clamp(&t, id(2)), (Some(1), TextOverflowValue::Clip));
    assert_eq!(resolve_line_clamp(&t, id(9)), (None, TextOverflowValue::Clip));
}
