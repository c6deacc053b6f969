use hayate_core::selection_chrome::{SelectionChromeStyle, ToolbarAction};

#[test]
fn toolbar_labels() {
    assert_eq!(ToolbarAction::Cut.label(), "Cut");
    assert_eq!(ToolbarAction::Copy.label(), "Copy");
    assert_eq!(ToolbarAction::Paste.label(), "Paste");
    assert_eq!(ToolbarAction::SelectAll.label(), "Select All");
    assert_eq!(SelectionChromeStyle::default(), SelectionChromeStyle::Material);
}
