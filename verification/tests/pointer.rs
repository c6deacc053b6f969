use hayate_core::pointer::PointerKind;

#[test]
fn maps_dom_pointer_type_strings_and_defaults_to_mouse() {
    assert_eq!(PointerKind::from_dom("mouse"), PointerKind::Mouse);
    assert_eq!(PointerKind::from_dom("touch"), PointerKind::Touch);
    assert_eq!(PointerKind::from_dom("pen"), PointerKind::Pen);
    assert_eq!(PointerKind::from_dom(""), PointerKind::Mouse);
    assert_eq!(PointerKind::from_dom("eraser"), PointerKind::Mouse);
}

#[test]
fn wire_discriminant_round_trips() {
    for kind in [PointerKind::Mouse, PointerKind::Touch, PointerKind::Pen] {
        assert_eq!(PointerKind::from_u32(kind.to_u32()), kind);
    }
    assert_eq!(PointerKind::Mouse.to_u32(), 0);
    assert_eq!(PointerKind::Touch.to_u32(), 1);
    assert_eq!(PointerKind::Pen.to_u32(), 2);
    assert_eq!(PointerKind::from_u32(99), PointerKind::Mouse);
}
