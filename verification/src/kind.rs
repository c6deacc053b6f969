//! The kinds of element, and the user-agent defaults of each kind.
use vstd::prelude::*;
use crate::style::CursorValue;
use crate::style::UserSelectValue;

verus! {

/// The kind of an element.
#[derive(Clone, Copy, Debug, PartialEq, Eq, Structural)]
pub enum ElementKind {
    View,
    Text,
    Image,
    Button,
    TextInput,
    ScrollView,
}

/// The wire discriminant of each kind, in declaration order.
pub open spec fn kind_of_wire(value: u32) -> Option<ElementKind> {
    if value == 0 {
        Some(ElementKind::View)
    } else if value == 1 {
        Some(ElementKind::Text)
    } else if value == 2 {
        Some(ElementKind::Image)
    } else if value == 3 {
        Some(ElementKind::Button)
    } else if value == 4 {
        Some(ElementKind::TextInput)
    } else if value == 5 {
        Some(ElementKind::ScrollView)
    } else {
        None
    }
}

/// The user-agent layout defaults of a kind, beneath its explicit style properties.
#[derive(Clone, Copy, Debug, PartialEq, Eq, Structural)]
pub enum BaseLayout {
    /// The layout engine's own defaults.
    EngineDefault,
    /// Content centred on the cross axis and packed at the start of the main axis.
    CenterCrossStartMain,
    /// A scroll container on both axes.
    ScrollBothAxes,
}

/// A `button` centres its content on the cross axis and keeps it at the start of the
/// main axis; a `scroll-view` scrolls on both axes; every other kind keeps the layout
/// engine's defaults.
pub open spec fn base_layout_spec(k: ElementKind) -> BaseLayout {
    match k {
        ElementKind::Button => BaseLayout::CenterCrossStartMain,
        ElementKind::ScrollView => BaseLayout::ScrollBothAxes,
        _ => BaseLayout::EngineDefault,
    }
}

impl ElementKind {
    /// The user-agent layout defaults of the kind: see [`base_layout_spec`].
    pub fn base_layout(self) -> (r: BaseLayout)
        ensures
            r == base_layout_spec(self),
    {
        match self {
            ElementKind::Button => BaseLayout::CenterCrossStartMain,
            ElementKind::ScrollView => BaseLayout::ScrollBothAxes,
            _ => BaseLayout::EngineDefault,
        }
    }

    /// The default cursor of the kind when no `cursor` is set: `button` shows the
    /// pointer, `text-input` the text I-beam, every other kind the default arrow.
    pub fn default_cursor(self) -> (r: CursorValue)
        ensures
            r == match self {
                ElementKind::Button => CursorValue::Pointer,
                ElementKind::TextInput => CursorValue::Text,
                _ => CursorValue::Default,
            },
    {
        match self {
            ElementKind::Button => CursorValue::Pointer,
            ElementKind::TextInput => CursorValue::Text,
            _ => CursorValue::Default,
        }
    }

    /// The default `user-select` of the kind: `image` and `button` are not
    /// selectable, every other kind is.
    pub fn default_user_select(self) -> (r: UserSelectValue)
        ensures
            r == match self {
                ElementKind::Image | ElementKind::Button => UserSelectValue::NoSelect,
                _ => UserSelectValue::Text,
            },
    {
        match self {
            ElementKind::Image | ElementKind::Button => UserSelectValue::NoSelect,
            _ => UserSelectValue::Text,
        }
    }

    /// Whether the kind takes text input and should raise the platform's soft
    /// keyboard or IME on focus: only `text-input`.
    pub fn accepts_text_input(self) -> (r: bool)
        ensures
            r == (self == ElementKind::TextInput),
    {
        match self {
            ElementKind::TextInput => true,
            _ => false,
        }
    }

    /// Whether the kind carries the `draw` display-list property: only `view`.
    pub fn carries_draw(self) -> (r: bool)
        ensures
            r == (self == ElementKind::View),
    {
        match self {
            ElementKind::View => true,
            _ => false,
        }
    }

    /// The kind with wire discriminant `value`, or `None` for an unknown one.
    pub fn from_u32(value: u32) -> (r: Option<Self>)
        ensures
            r == kind_of_wire(value),
    {
        match value {
            0 => Some(ElementKind::View),
            1 => Some(ElementKind::Text),
            2 => Some(ElementKind::Image),
            3 => Some(ElementKind::Button),
            4 => Some(ElementKind::TextInput),
            5 => Some(ElementKind::ScrollView),
            _ => None,
        }
    }

    /// Whether the kind lays out text of its own: `text`, `button` and `text-input`.
    pub fn is_text_like(self) -> (r: bool)
        ensures
            r == (self == ElementKind::Text || self == ElementKind::Button || self
                == ElementKind::TextInput),
    {
        match self {
            ElementKind::Text | ElementKind::Button | ElementKind::TextInput => true,
            _ => false,
        }
    }
}

/// Every kind has exactly one wire discriminant below six, and the kinds that take
/// text input are text-like.
pub proof fn law_kinds_have_distinct_wire_values(k: ElementKind)
    ensures
        exists|v: u32| v < 6 && #[trigger] kind_of_wire(v) == Some(k),
        forall|v: u32, w: u32| #[trigger] kind_of_wire(v) == Some(k) && #[trigger] kind_of_wire(w) == Some(k) ==> v == w,
        k == ElementKind::TextInput ==> (k == ElementKind::Text || k == ElementKind::Button || k
            == ElementKind::TextInput),
{
    match k {
        ElementKind::View => assert(kind_of_wire(0) == Some(k)),
        ElementKind::Text => assert(kind_of_wire(1) == Some(k)),
        ElementKind::Image => assert(kind_of_wire(2) == Some(k)),
        ElementKind::Button => assert(kind_of_wire(3) == Some(k)),
        ElementKind::TextInput => assert(kind_of_wire(4) == Some(k)),
        ElementKind::ScrollView => assert(kind_of_wire(5) == Some(k)),
    }
}

} // verus!
