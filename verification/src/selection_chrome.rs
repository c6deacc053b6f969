//! The selection chrome: floating toolbar actions and drag-handle ends.
use vstd::prelude::*;

verus! {

/// The look of the selection chrome.
#[derive(Clone, Copy, Debug, PartialEq, Eq, Structural)]
pub enum SelectionChromeStyle {
    /// Material-like chrome, the default theme.
    Material,
    /// Cupertino (iOS) chrome.
    Cupertino,
}

/// The default style is `Material`.
impl Default for SelectionChromeStyle {
    fn default() -> (r: Self)
        ensures
            r == SelectionChromeStyle::Material,
    {
        SelectionChromeStyle::Material
    }
}

/// A button of the floating selection toolbar. Read-only selections offer the read
/// actions (Copy, Select All); editable text inputs add the changing ones (Cut, Paste).
#[derive(Clone, Copy, Debug, PartialEq, Eq, Hash, Structural)]
pub enum ToolbarAction {
    Cut,
    Copy,
    Paste,
    SelectAll,
}

/// The label drawn on each toolbar button.
pub open spec fn action_label(a: ToolbarAction) -> Seq<char> {
    match a {
        ToolbarAction::Cut => "Cut"@,
        ToolbarAction::Copy => "Copy"@,
        ToolbarAction::Paste => "Paste"@,
        ToolbarAction::SelectAll => "Select All"@,
    }
}

impl ToolbarAction {
    /// The button label drawn on the toolbar.
    pub fn label(self) -> (r: &'static str)
        ensures
            r@ == action_label(self),
    {
        match self {
            ToolbarAction::Cut => "Cut",
            ToolbarAction::Copy => "Copy",
            ToolbarAction::Paste => "Paste",
            ToolbarAction::SelectAll => "Select All",
        }
    }
}

/// What a press on the toolbar hit.
#[derive(Clone, Copy, Debug, PartialEq, Eq, Structural)]
pub enum ToolbarHit {
    /// An action button (on the bar, or an item of the open overflow menu).
    Action(ToolbarAction),
    /// The overflow toggle, which opens and closes the overflow menu.
    Overflow,
}

/// Which end of the selection a drag handle adjusts.
#[derive(Clone, Copy, Debug, PartialEq, Eq, Structural)]
pub enum SelectionHandleEnd {
    Start,
    End,
}

/// No two actions share a label.
pub proof fn law_labels_are_distinct(a: ToolbarAction, b: ToolbarAction)
    ensures
        action_label(a) == action_label(b) ==> a == b,
{
    reveal_strlit("Cut");
    reveal_strlit("Copy");
    reveal_strlit("Paste");
    reveal_strlit("Select All");
    if a != b {
        assert(action_label(a).len() != action_label(b).len() || action_label(a)[1] != action_label(b)[1]
            || action_label(a)[0] != action_label(b)[0]);
    }
}

} // verus!
