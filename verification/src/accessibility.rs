//! The subset of inbound assistive-technology actions that the core drives.
//!
//! The accessibility protocol's action vocabulary is wide; the core maps only the
//! operations it actually performs and folds every other one into `Ignored`, so the
//! inbound surface is total. An inbound request is read here as plain values: which
//! action, the target node's wire id, and the string value carried with it, if any.
use vstd::prelude::*;
use crate::edit_state::{caret_on_boundary, display_text_spec, EditState};
use crate::byte_text::{fits, str_eq};
use crate::id::ElementId;
use crate::kind::ElementKind;

verus! {

/// The core's subset of inbound accessibility actions.
#[derive(Clone, Debug, PartialEq, Eq)]
pub enum AccessibilityAction {
    /// Move focus to `target` through the focus state machine.
    Focus { target: ElementId },
    /// Activate `target` with a direct click, equivalent to a tap.
    Click { target: ElementId },
    /// Replace the text-input value of `target` with `value`.
    SetValue { target: ElementId, value: String },
    /// Scroll the nearest scroll-view ancestor so that `target` is shown.
    ScrollIntoView { target: ElementId },
    /// An unsupported action: nothing happens.
    Ignored,
}

/// The action kinds an inbound request can name, as far as the core tells them apart.
#[derive(Clone, Copy, Debug, PartialEq, Eq, Structural)]
pub enum RequestedAction {
    Focus,
    Click,
    SetValue,
    ScrollIntoView,
    /// Any other action of the protocol.
    Other,
}

/// An inbound action request, as the values the core reads from it.
#[derive(Clone, Debug, PartialEq, Eq)]
pub struct ActionRequest {
    /// The requested action.
    pub action: RequestedAction,
    /// The wire id of the target node; element nodes carry their element's id.
    pub target_node: u64,
    /// The string value carried with the request, when it carries one.
    pub value: Option<String>,
}

/// `r` is what `map_action_request` answers to `req`: the supported actions aimed at
/// the element whose wire id the request names, everything else `Ignored`.
pub open spec fn is_mapping_of(req: ActionRequest, r: AccessibilityAction) -> bool {
    match req.action {
        RequestedAction::Focus => r matches AccessibilityAction::Focus { target } && target@
            == req.target_node,
        RequestedAction::Click => r matches AccessibilityAction::Click { target } && target@
            == req.target_node,
        RequestedAction::SetValue => match req.value {
            Some(v) => r matches AccessibilityAction::SetValue { target, value } && target@
                == req.target_node && value == v,
            None => r == AccessibilityAction::Ignored,
        },
        RequestedAction::ScrollIntoView => r matches AccessibilityAction::ScrollIntoView {
            target,
        } && target@ == req.target_node,
        RequestedAction::Other => r == AccessibilityAction::Ignored,
    }
}

/// Maps an inbound request to the core's action subset. The target node resolves to
/// the element with the same wire id. A `SetValue` without a string value has nothing
/// to set and is `Ignored`, as is every unsupported action.
pub fn map_action_request(req: &ActionRequest) -> (r: AccessibilityAction)
    ensures
        is_mapping_of(*req, r),
{
    let target = ElementId::from_u64(req.target_node);
    match req.action {
        RequestedAction::Focus => AccessibilityAction::Focus { target },
        RequestedAction::Click => AccessibilityAction::Click { target },
        RequestedAction::SetValue => match &req.value {
            Some(value) => AccessibilityAction::SetValue { target, value: value.clone() },
            None => AccessibilityAction::Ignored,
        },
        RequestedAction::ScrollIntoView => AccessibilityAction::ScrollIntoView { target },
        RequestedAction::Other => AccessibilityAction::Ignored,
    }
}

/// The accessibility roles the core assigns to elements.
#[derive(Clone, Copy, Debug, PartialEq, Eq, Structural)]
pub enum AccessRole {
    Window,
    Button,
    Label,
    TextInput,
    ScrollView,
    Image,
    List,
    ListItem,
    Heading,
    Link,
    Navigation,
    Main,
    Dialog,
    AlertDialog,
    GenericContainer,
}

/// The role an explicit ARIA role name asks for, `None` for a name the core does not know.
pub open spec fn aria_role_spec(role: Seq<char>) -> Option<AccessRole> {
    if role == "button"@ {
        Some(AccessRole::Button)
    } else if role == "label"@ {
        Some(AccessRole::Label)
    } else if role == "text-input"@ || role == "textbox"@ {
        Some(AccessRole::TextInput)
    } else if role == "scroll-view"@ {
        Some(AccessRole::ScrollView)
    } else if role == "image"@ || role == "img"@ {
        Some(AccessRole::Image)
    } else if role == "list"@ {
        Some(AccessRole::List)
    } else if role == "list-item"@ || role == "listitem"@ {
        Some(AccessRole::ListItem)
    } else if role == "heading"@ {
        Some(AccessRole::Heading)
    } else if role == "link"@ {
        Some(AccessRole::Link)
    } else if role == "navigation"@ {
        Some(AccessRole::Navigation)
    } else if role == "main"@ {
        Some(AccessRole::Main)
    } else if role == "dialog"@ {
        Some(AccessRole::Dialog)
    } else if role == "alert-dialog"@ {
        Some(AccessRole::AlertDialog)
    } else if role == "generic-container"@ {
        Some(AccessRole::GenericContainer)
    } else {
        None
    }
}

/// The role of a kind when no explicit role is set.
pub open spec fn implicit_role_spec(kind: ElementKind) -> AccessRole {
    match kind {
        ElementKind::View => AccessRole::GenericContainer,
        ElementKind::Text => AccessRole::Label,
        ElementKind::Image => AccessRole::Image,
        ElementKind::Button => AccessRole::Button,
        ElementKind::TextInput => AccessRole::TextInput,
        ElementKind::ScrollView => AccessRole::ScrollView,
    }
}

/// The role named by an explicit ARIA role, `None` for a name the core does not know.
pub fn aria_role(role: &str) -> (r: Option<AccessRole>)
    ensures
        r == aria_role_spec(role@),
{
    if str_eq(role, "button") {
        Some(AccessRole::Button)
    } else if str_eq(role, "label") {
        Some(AccessRole::Label)
    } else if str_eq(role, "text-input") || str_eq(role, "textbox") {
        Some(AccessRole::TextInput)
    } else if str_eq(role, "scroll-view") {
        Some(AccessRole::ScrollView)
    } else if str_eq(role, "image") || str_eq(role, "img") {
        Some(AccessRole::Image)
    } else if str_eq(role, "list") {
        Some(AccessRole::List)
    } else if str_eq(role, "list-item") || str_eq(role, "listitem") {
        Some(AccessRole::ListItem)
    } else if str_eq(role, "heading") {
        Some(AccessRole::Heading)
    } else if str_eq(role, "link") {
        Some(AccessRole::Link)
    } else if str_eq(role, "navigation") {
        Some(AccessRole::Navigation)
    } else if str_eq(role, "main") {
        Some(AccessRole::Main)
    } else if str_eq(role, "dialog") {
        Some(AccessRole::Dialog)
    } else if str_eq(role, "alert-dialog") {
        Some(AccessRole::AlertDialog)
    } else if str_eq(role, "generic-container") {
        Some(AccessRole::GenericContainer)
    } else {
        None
    }
}

/// The role of a kind when no explicit role is set.
pub fn implicit_role(kind: ElementKind) -> (r: AccessRole)
    ensures
        r == implicit_role_spec(kind),
{
    match kind {
        ElementKind::View => AccessRole::GenericContainer,
        ElementKind::Text => AccessRole::Label,
        ElementKind::Image => AccessRole::Image,
        ElementKind::Button => AccessRole::Button,
        ElementKind::TextInput => AccessRole::TextInput,
        ElementKind::ScrollView => AccessRole::ScrollView,
    }
}

/// The role of an element: the root is the window; otherwise a known explicit role
/// wins over the kind's implicit one.
pub fn resolve_role(kind: ElementKind, role: Option<&str>, is_root: bool) -> (r: AccessRole)
    ensures
        r == if is_root {
            AccessRole::Window
        } else {
            match role {
                Some(name) => match aria_role_spec(name@) {
                    Some(explicit) => explicit,
                    None => implicit_role_spec(kind),
                },
                None => implicit_role_spec(kind),
            }
        },
{
    if is_root {
        return AccessRole::Window;
    }
    if let Some(name) = role {
        if let Some(explicit) = aria_role(name) {
            return explicit;
        }
    }
    implicit_role(kind)
}

/// The accessible value of an element: the text of a `text` or `button`, the displayed
/// text (preedit included) of a `text-input`, and nothing for other kinds.
pub fn element_value(kind: ElementKind, text: &Option<String>, edit: &Option<EditState>) -> (r:
    Option<String>)
    requires
        kind == ElementKind::TextInput ==> (edit matches Some(e) ==> fits(e@.text) && (
        e@.preedit is Some ==> caret_on_boundary(e@))),
    ensures
        match kind {
            ElementKind::Text | ElementKind::Button => r == *text,
            ElementKind::TextInput => match edit {
                Some(e) => r matches Some(v) && v@ == display_text_spec(e@),
                None => r is None,
            },
            _ => r is None,
        },
{
    match kind {
        ElementKind::Text => text.clone(),
        ElementKind::TextInput => match edit {
            Some(e) => Some(e.display_text()),
            None => None,
        },
        ElementKind::Button => text.clone(),
        _ => None,
    }
}

/// The answer to a request is unique: two answers to the same request are equal.
pub proof fn law_mapping_is_a_function(req: ActionRequest, a: AccessibilityAction, b: AccessibilityAction)
    requires
        is_mapping_of(req, a),
        is_mapping_of(req, b),
    ensures
        a == b,
{
    match (a, b) {
        (AccessibilityAction::Focus { target: x }, AccessibilityAction::Focus { target: y }) => {
            ElementId::lemma_view_injective(x, y);
        },
        (AccessibilityAction::Click { target: x }, AccessibilityAction::Click { target: y }) => {
            ElementId::lemma_view_injective(x, y);
        },
        (
            AccessibilityAction::SetValue { target: x, value: _ },
            AccessibilityAction::SetValue { target: y, value: _ },
        ) => {
            ElementId::lemma_view_injective(x, y);
        },
        (
            AccessibilityAction::ScrollIntoView { target: x },
            AccessibilityAction::ScrollIntoView { target: y },
        ) => {
            ElementId::lemma_view_injective(x, y);
        },
        _ => {},
    }
}

/// Two ARIA names that spell one role: `textbox` for `text-input`, `img` for `image`,
/// `listitem` for `list-item`.
pub open spec fn role_synonyms(a: Seq<char>, b: Seq<char>) -> bool {
    ||| (a == "text-input"@ && b == "textbox"@) || (a == "textbox"@ && b == "text-input"@)
    ||| (a == "image"@ && b == "img"@) || (a == "img"@ && b == "image"@)
    ||| (a == "list-item"@ && b == "listitem"@) || (a == "listitem"@ && b == "list-item"@)
}

/// The ARIA name of a role (the window, which only the root takes, has none).
pub open spec fn role_name(role: AccessRole) -> Seq<char> {
    match role {
        AccessRole::Window => Seq::empty(),
        AccessRole::Button => "button"@,
        AccessRole::Label => "label"@,
        AccessRole::TextInput => "text-input"@,
        AccessRole::ScrollView => "scroll-view"@,
        AccessRole::Image => "image"@,
        AccessRole::List => "list"@,
        AccessRole::ListItem => "list-item"@,
        AccessRole::Heading => "heading"@,
        AccessRole::Link => "link"@,
        AccessRole::Navigation => "navigation"@,
        AccessRole::Main => "main"@,
        AccessRole::Dialog => "dialog"@,
        AccessRole::AlertDialog => "alert-dialog"@,
        AccessRole::GenericContainer => "generic-container"@,
    }
}

/// Explicit roles name the roles one to one: each role's own name asks for it, every role but the window (which only the
/// root takes) has a name that asks for it, no name asks for the window, and two names
/// ask for the same role only when they are the same name or spell it two ways.
pub proof fn law_role_names_are_one_to_one(a: Seq<char>, b: Seq<char>, role: AccessRole)
    ensures
        role != AccessRole::Window ==> aria_role_spec(role_name(role)) == Some(role),
        role != AccessRole::Window ==> exists|n: Seq<char>| aria_role_spec(n) == Some(role),
        aria_role_spec(a) != Some(AccessRole::Window),
        (aria_role_spec(a) is Some && aria_role_spec(a) == aria_role_spec(b)) ==> (a == b
            || role_synonyms(a, b)),
{
    reveal_strlit("button");
    assert(("button"@).len() == 6 && ("button"@)[0] == 'b' && ("button"@)[5] == 'n');
    reveal_strlit("label");
    assert(("label"@).len() == 5 && ("label"@)[0] == 'l' && ("label"@)[4] == 'l');
    reveal_strlit("text-input");
    assert(("text-input"@).len() == 10 && ("text-input"@)[0] == 't' && ("text-input"@)[9] == 't');
    reveal_strlit("textbox");
    assert(("textbox"@).len() == 7 && ("textbox"@)[0] == 't' && ("textbox"@)[6] == 'x');
    reveal_strlit("scroll-view");
    assert(("scroll-view"@).len() == 11 && ("scroll-view"@)[0] == 's' && ("scroll-view"@)[10] == 'w');
    reveal_strlit("image");
    assert(("image"@).len() == 5 && ("image"@)[0] == 'i' && ("image"@)[4] == 'e');
    reveal_strlit("img");
    assert(("img"@).len() == 3 && ("img"@)[0] == 'i' && ("img"@)[2] == 'g');
    reveal_strlit("list");
    assert(("list"@).len() == 4 && ("list"@)[0] == 'l' && ("list"@)[3] == 't');
    reveal_strlit("list-item");
    assert(("list-item"@).len() == 9 && ("list-item"@)[0] == 'l' && ("list-item"@)[8] == 'm');
    reveal_strlit("listitem");
    assert(("listitem"@).len() == 8 && ("listitem"@)[0] == 'l' && ("listitem"@)[7] == 'm');
    reveal_strlit("heading");
    assert(("heading"@).len() == 7 && ("heading"@)[0] == 'h' && ("heading"@)[6] == 'g');
    reveal_strlit("link");
    assert(("link"@).len() == 4 && ("link"@)[0] == 'l' && ("link"@)[3] == 'k');
    reveal_strlit("navigation");
    assert(("navigation"@).len() == 10 && ("navigation"@)[0] == 'n' && ("navigation"@)[9] == 'n');
    reveal_strlit("main");
    assert(("main"@).len() == 4 && ("main"@)[0] == 'm' && ("main"@)[3] == 'n');
    reveal_strlit("dialog");
    assert(("dialog"@).len() == 6 && ("dialog"@)[0] == 'd' && ("dialog"@)[5] == 'g');
    reveal_strlit("alert-dialog");
    assert(("alert-dialog"@).len() == 12 && ("alert-dialog"@)[0] == 'a' && ("alert-dialog"@)[11] == 'g');
    reveal_strlit("generic-container");
    assert(("generic-container"@).len() == 17 && ("generic-container"@)[0] == 'g' && ("generic-container"@)[16] == 'r');
    match role {
        AccessRole::Window => {},
        AccessRole::Button => assert(aria_role_spec("button"@) == Some(role)),
        AccessRole::Label => assert(aria_role_spec("label"@) == Some(role)),
        AccessRole::TextInput => assert(aria_role_spec("text-input"@) == Some(role)),
        AccessRole::ScrollView => assert(aria_role_spec("scroll-view"@) == Some(role)),
        AccessRole::Image => assert(aria_role_spec("image"@) == Some(role)),
        AccessRole::List => assert(aria_role_spec("list"@) == Some(role)),
        AccessRole::ListItem => assert(aria_role_spec("list-item"@) == Some(role)),
        AccessRole::Heading => assert(aria_role_spec("heading"@) == Some(role)),
        AccessRole::Link => assert(aria_role_spec("link"@) == Some(role)),
        AccessRole::Navigation => assert(aria_role_spec("navigation"@) == Some(role)),
        AccessRole::Main => assert(aria_role_spec("main"@) == Some(role)),
        AccessRole::Dialog => assert(aria_role_spec("dialog"@) == Some(role)),
        AccessRole::AlertDialog => assert(aria_role_spec("alert-dialog"@) == Some(role)),
        AccessRole::GenericContainer => assert(aria_role_spec("generic-container"@) == Some(role)),
    }
}

} // verus!
