//! Style property value types, and the CSS text of grid placements.
use vstd::prelude::*;
use crate::byte_text::push_char;

verus! {

/// Which style property an `unset` removes.
#[derive(Clone, Copy, Debug, PartialEq, Eq, Structural)]
pub enum StylePropKind {
    Color,
    FontSize,
    FontFamily,
    FontWeight,
}

#[derive(Clone, Copy, Debug, PartialEq, Eq, Structural)]
pub enum FontStyleValue {
    Normal,
    Italic,
    Oblique,
}

/// Text decoration; `NoDecoration` is CSS `none`.
#[derive(Clone, Copy, Debug, PartialEq, Eq, Structural)]
pub enum TextDecorationValue {
    NoDecoration,
    Underline,
    LineThrough,
}

/// Border line style. `NoBorder` (CSS `none`) is the default: a border is drawn only
/// once a style is set.
#[derive(Clone, Copy, Debug, PartialEq, Eq, Structural)]
pub enum BorderStyleValue {
    NoBorder,
    Solid,
    Dashed,
}

/// How a box is positioned. `Relative` is the default; `Absolute` takes the element
/// out of the normal flow and places it by its insets.
#[derive(Clone, Copy, Debug, PartialEq, Eq, Structural)]
pub enum PositionValue {
    Relative,
    Absolute,
}

/// The look of the pointer cursor, resolved from the element under the pointer.
#[derive(Clone, Copy, Debug, PartialEq, Eq, Structural)]
pub enum CursorValue {
    Default,
    Pointer,
    Text,
    Crosshair,
    NotAllowed,
    Grab,
    Grabbing,
}

/// Whether an element's text takes part in selection (CSS `user-select`).
///
/// `Text` takes part; `NoSelect` (CSS `none`) excludes the element and its subtree;
/// `Contains` is selectable but forms a boundary that a selection cannot cross.
#[derive(Clone, Copy, Debug, PartialEq, Eq, Structural)]
pub enum UserSelectValue {
    Text,
    NoSelect,
    Contains,
}

/// Overflow handling of children. `Visible` is the default; `Hidden` clips children
/// to the border box.
#[derive(Clone, Copy, Debug, PartialEq, Eq, Structural)]
pub enum OverflowValue {
    Visible,
    Hidden,
}

/// Easing of pseudo-state transitions; `Ease` is the CSS default.
#[derive(Clone, Copy, Debug, PartialEq, Eq, Structural)]
pub enum TransitionTimingValue {
    Ease,
    Linear,
    EaseIn,
    EaseOut,
    EaseInOut,
}

/// How the last visible line of a `max-lines` block is cut: `Clip` (the default)
/// or with an ellipsis.
#[derive(Clone, Copy, Debug, PartialEq, Eq, Structural)]
pub enum TextOverflowValue {
    Clip,
    Ellipsis,
}

/// The unit of a dimension.
#[derive(Clone, Copy, Debug, PartialEq, Eq, Structural)]
pub enum DimensionUnit {
    Px,
    Percent,
    Auto,
    Fr,
}

/// Box generation; `NoBox` is CSS `display: none`.
#[derive(Clone, Copy, Debug)]
pub enum DisplayValue {
    Flex,
    Grid,
    Block,
    NoBox,
}

#[derive(Clone, Copy, Debug)]
pub enum FlexWrapValue {
    Nowrap,
    Wrap,
    WrapReverse,
}

#[derive(Clone, Copy, Debug)]
pub enum FlexDirectionValue {
    Row,
    Column,
    RowReverse,
    ColumnReverse,
}

#[derive(Clone, Copy, Debug)]
pub enum AlignValue {
    FlexStart,
    FlexEnd,
    Center,
    Stretch,
    Baseline,
}

#[derive(Clone, Copy, Debug)]
pub enum JustifyValue {
    FlexStart,
    FlexEnd,
    Center,
    SpaceBetween,
    SpaceAround,
    SpaceEvenly,
}

#[derive(Clone, Copy, Debug)]
pub enum AlignSelfValue {
    Auto,
    FlexStart,
    FlexEnd,
    Center,
    Stretch,
    Baseline,
}

#[derive(Clone, Copy, Debug)]
pub enum AlignContentValue {
    FlexStart,
    FlexEnd,
    Center,
    Stretch,
    SpaceBetween,
    SpaceAround,
    SpaceEvenly,
}

/// Which box the size properties measure (CSS `box-sizing`).
#[derive(Clone, Copy, Debug)]
pub enum BoxSizingValue {
    BorderBox,
    ContentBox,
}

/// Grid auto-placement direction and packing (CSS `grid-auto-flow`).
#[derive(Clone, Copy, Debug)]
pub enum GridAutoFlowValue {
    Row,
    Column,
    RowDense,
    ColumnDense,
}

/// One end of a grid item's placement on one axis: `Auto`, an explicit grid line
/// (1-based, negative counts from the end), or a span of tracks.
#[derive(Clone, Copy, Debug, PartialEq, Eq, Structural)]
pub enum GridLineValue {
    Auto,
    Line(i32),
    Span(u32),
}

/// The ASCII digit of `d` (`0..=9`).
pub open spec fn digit_char(d: nat) -> char {
    if d == 0 {
        '0'
    } else if d == 1 {
        '1'
    } else if d == 2 {
        '2'
    } else if d == 3 {
        '3'
    } else if d == 4 {
        '4'
    } else if d == 5 {
        '5'
    } else if d == 6 {
        '6'
    } else if d == 7 {
        '7'
    } else if d == 8 {
        '8'
    } else {
        '9'
    }
}

/// The decimal digits of `n`, most significant first, without leading zeros.
pub open spec fn decimal(n: nat) -> Seq<char>
    decreases n,
{
    if n < 10 {
        seq![digit_char(n)]
    } else {
        decimal(n / 10).push(digit_char(n % 10))
    }
}

/// The decimal text of the integer `i`, with a leading `-` when negative.
pub open spec fn int_text(i: int) -> Seq<char> {
    if i < 0 {
        seq!['-'] + decimal((-i) as nat)
    } else {
        decimal(i as nat)
    }
}

/// The CSS text of one end of a grid placement: `auto`, `<line>` or `span <n>`.
pub open spec fn grid_line_css(v: GridLineValue) -> Seq<char> {
    match v {
        GridLineValue::Auto => "auto"@,
        GridLineValue::Line(n) => int_text(n as int),
        GridLineValue::Span(n) => "span "@ + decimal(n as nat),
    }
}

fn digit(d: u64) -> (c: char)
    requires
        d < 10,
    ensures
        c == digit_char(d as nat),
{
    if d == 0 {
        '0'
    } else if d == 1 {
        '1'
    } else if d == 2 {
        '2'
    } else if d == 3 {
        '3'
    } else if d == 4 {
        '4'
    } else if d == 5 {
        '5'
    } else if d == 6 {
        '6'
    } else if d == 7 {
        '7'
    } else if d == 8 {
        '8'
    } else {
        '9'
    }
}

/// Appends the decimal digits of `n` to `out`.
fn push_decimal(out: &mut String, n: u64)
    ensures
        final(out)@ == old(out)@ + decimal(n as nat),
    decreases n,
{
    if n >= 10 {
        push_decimal(out, n / 10);
    }
    push_char(out, digit(n % 10));
    if n >= 10 {
        assert(out@ =~= old(out)@ + decimal(n as nat));
    } else {
        assert(out@ =~= old(out)@ + decimal(n as nat));
    }
}

/// Appends the decimal text of `n` to `out`, with a leading `-` when negative.
pub fn push_int(out: &mut String, n: i64)
    ensures
        final(out)@ == old(out)@ + int_text(n as int),
{
    if n < 0 {
        push_char(out, '-');
        let m: u64 = if n == i64::MIN {
            9_223_372_036_854_775_808u64
        } else {
            (0 - n) as u64
        };
        push_decimal(out, m);
        assert(out@ =~= old(out)@ + (seq!['-'] + decimal((-n) as nat)));
    } else {
        push_decimal(out, n as u64);
    }
}

impl GridLineValue {
    /// The CSS text of this end: `auto`, `2`, `-1` or `span 2`.
    pub fn to_css(self) -> (r: String)
        ensures
            r@ == grid_line_css(self),
    {
        match self {
            GridLineValue::Auto => "auto".to_owned(),
            GridLineValue::Line(n) => {
                let mut out = String::new();
                push_int(&mut out, n as i64);
                assert(out@ =~= int_text(n as int));
                out
            },
            GridLineValue::Span(n) => {
                let mut out = "span ".to_owned();
                push_decimal(&mut out, n as u64);
                out
            },
        }
    }
}

/// A grid item's placement on one axis: a start and an end.
#[derive(Clone, Copy, Debug, PartialEq, Eq, Structural)]
pub struct GridPlacementValue {
    pub start: GridLineValue,
    pub end: GridLineValue,
}

impl GridPlacementValue {
    /// Only a start; the end is `auto` (CSS `grid-column: <start>`).
    pub fn start(start: GridLineValue) -> (r: Self)
        ensures
            r.start == start,
            r.end == GridLineValue::Auto,
    {
        GridPlacementValue { start, end: GridLineValue::Auto }
    }

    /// Both ends (`<start> / <end>`).
    pub fn new(start: GridLineValue, end: GridLineValue) -> (r: Self)
        ensures
            r.start == start,
            r.end == end,
    {
        GridPlacementValue { start, end }
    }

    /// Starts at explicit line `i` (CSS `grid-column: i`).
    pub fn line(i: i32) -> (r: Self)
        ensures
            r.start == GridLineValue::Line(i),
            r.end == GridLineValue::Auto,
    {
        Self::start(GridLineValue::Line(i))
    }

    /// Spans `n` tracks (CSS `grid-column: span n`).
    pub fn span(n: u32) -> (r: Self)
        ensures
            r.start == GridLineValue::Span(n),
            r.end == GridLineValue::Auto,
    {
        Self::start(GridLineValue::Span(n))
    }
}

/// Inline-axis alignment of items in their grid cells (CSS `justify-items`).
#[derive(Clone, Copy, Debug)]
pub enum JustifyItemsValue {
    Start,
    End,
    Center,
    Stretch,
}

/// An item's own inline-axis alignment, over the container's (CSS `justify-self`).
#[derive(Clone, Copy, Debug)]
pub enum JustifySelfValue {
    Auto,
    Start,
    End,
    Center,
    Stretch,
}

/// Which style property a declaration sets, without its value.
#[derive(Clone, Copy, Debug, PartialEq, Eq, Structural)]
pub enum StylePropTag {
    BackgroundColor,
    Opacity,
    BorderRadius,
    BorderWidth,
    BorderColor,
    BorderStyle,
    BoxShadow,
    Overflow,
    Width,
    Height,
    MinWidth,
    MinHeight,
    MaxWidth,
    MaxHeight,
    Display,
    FlexDirection,
    FlexWrap,
    AlignItems,
    JustifyContent,
    Gap,
    Padding,
    PaddingTop,
    PaddingRight,
    PaddingBottom,
    PaddingLeft,
    Margin,
    MarginTop,
    MarginRight,
    MarginBottom,
    MarginLeft,
    Position,
    Top,
    Left,
    Right,
    Bottom,
    FlexGrow,
    FlexShrink,
    FlexBasis,
    AlignSelf,
    AlignContent,
    GridTemplateColumns,
    GridTemplateRows,
    FontSize,
    FontFamily,
    FontWeight,
    Color,
    FontStyle,
    TextDecoration,
    MaxLines,
    TextOverflow,
    Cursor,
    DefaultColor,
    DefaultFontFamily,
    DefaultFontSize,
    DefaultFontWeight,
    ZIndex,
    TransitionDuration,
    TransitionTiming,
}

/// The CSS key of a style property.
pub open spec fn style_prop_key_spec(tag: StylePropTag) -> Seq<char> {
    match tag {
        StylePropTag::BackgroundColor => "background-color"@,
        StylePropTag::Opacity => "opacity"@,
        StylePropTag::BorderRadius => "border-radius"@,
        StylePropTag::BorderWidth => "border-width"@,
        StylePropTag::BorderColor => "border-color"@,
        StylePropTag::BorderStyle => "border-style"@,
        StylePropTag::BoxShadow => "box-shadow"@,
        StylePropTag::Overflow => "overflow"@,
        StylePropTag::Width => "width"@,
        StylePropTag::Height => "height"@,
        StylePropTag::MinWidth => "min-width"@,
        StylePropTag::MinHeight => "min-height"@,
        StylePropTag::MaxWidth => "max-width"@,
        StylePropTag::MaxHeight => "max-height"@,
        StylePropTag::Display => "display"@,
        StylePropTag::FlexDirection => "flex-direction"@,
        StylePropTag::FlexWrap => "flex-wrap"@,
        StylePropTag::AlignItems => "align-items"@,
        StylePropTag::JustifyContent => "justify-content"@,
        StylePropTag::Gap => "gap"@,
        StylePropTag::Padding => "padding"@,
        StylePropTag::PaddingTop => "padding-top"@,
        StylePropTag::PaddingRight => "padding-right"@,
        StylePropTag::PaddingBottom => "padding-bottom"@,
        StylePropTag::PaddingLeft => "padding-left"@,
        StylePropTag::Margin => "margin"@,
        StylePropTag::MarginTop => "margin-top"@,
        StylePropTag::MarginRight => "margin-right"@,
        StylePropTag::MarginBottom => "margin-bottom"@,
        StylePropTag::MarginLeft => "margin-left"@,
        StylePropTag::Position => "position"@,
        StylePropTag::Top => "top"@,
        StylePropTag::Left => "left"@,
        StylePropTag::Right => "right"@,
        StylePropTag::Bottom => "bottom"@,
        StylePropTag::FlexGrow => "flex-grow"@,
        StylePropTag::FlexShrink => "flex-shrink"@,
        StylePropTag::FlexBasis => "flex-basis"@,
        StylePropTag::AlignSelf => "align-self"@,
        StylePropTag::AlignContent => "align-content"@,
        StylePropTag::GridTemplateColumns => "grid-template-columns"@,
        StylePropTag::GridTemplateRows => "grid-template-rows"@,
        StylePropTag::FontSize => "font-size"@,
        StylePropTag::FontFamily => "font-family"@,
        StylePropTag::FontWeight => "font-weight"@,
        StylePropTag::Color => "color"@,
        StylePropTag::FontStyle => "font-style"@,
        StylePropTag::TextDecoration => "text-decoration"@,
        StylePropTag::MaxLines => "max-lines"@,
        StylePropTag::TextOverflow => "text-overflow"@,
        StylePropTag::Cursor => "cursor"@,
        StylePropTag::DefaultColor => "default-color"@,
        StylePropTag::DefaultFontFamily => "default-font-family"@,
        StylePropTag::DefaultFontSize => "default-font-size"@,
        StylePropTag::DefaultFontWeight => "default-font-weight"@,
        StylePropTag::ZIndex => "z-index"@,
        StylePropTag::TransitionDuration => "transition-duration"@,
        StylePropTag::TransitionTiming => "transition-timing"@,
    }
}

/// The CSS key of a style property (`background-color`, `z-index`, ...), which
/// identifies a declaration when a pseudo-class override replaces an earlier one.
pub fn style_prop_key(kind: StylePropTag) -> (r: &'static str)
    ensures
        r@ == style_prop_key_spec(kind),
{
    match kind {
        StylePropTag::BackgroundColor => "background-color",
        StylePropTag::Opacity => "opacity",
        StylePropTag::BorderRadius => "border-radius",
        StylePropTag::BorderWidth => "border-width",
        StylePropTag::BorderColor => "border-color",
        StylePropTag::BorderStyle => "border-style",
        StylePropTag::BoxShadow => "box-shadow",
        StylePropTag::Overflow => "overflow",
        StylePropTag::Width => "width",
        StylePropTag::Height => "height",
        StylePropTag::MinWidth => "min-width",
        StylePropTag::MinHeight => "min-height",
        StylePropTag::MaxWidth => "max-width",
        StylePropTag::MaxHeight => "max-height",
        StylePropTag::Display => "display",
        StylePropTag::FlexDirection => "flex-direction",
        StylePropTag::FlexWrap => "flex-wrap",
        StylePropTag::AlignItems => "align-items",
        StylePropTag::JustifyContent => "justify-content",
        StylePropTag::Gap => "gap",
        StylePropTag::Padding => "padding",
        StylePropTag::PaddingTop => "padding-top",
        StylePropTag::PaddingRight => "padding-right",
        StylePropTag::PaddingBottom => "padding-bottom",
        StylePropTag::PaddingLeft => "padding-left",
        StylePropTag::Margin => "margin",
        StylePropTag::MarginTop => "margin-top",
        StylePropTag::MarginRight => "margin-right",
        StylePropTag::MarginBottom => "margin-bottom",
        StylePropTag::MarginLeft => "margin-left",
        StylePropTag::Position => "position",
        StylePropTag::Top => "top",
        StylePropTag::Left => "left",
        StylePropTag::Right => "right",
        StylePropTag::Bottom => "bottom",
        StylePropTag::FlexGrow => "flex-grow",
        StylePropTag::FlexShrink => "flex-shrink",
        StylePropTag::FlexBasis => "flex-basis",
        StylePropTag::AlignSelf => "align-self",
        StylePropTag::AlignContent => "align-content",
        StylePropTag::GridTemplateColumns => "grid-template-columns",
        StylePropTag::GridTemplateRows => "grid-template-rows",
        StylePropTag::FontSize => "font-size",
        StylePropTag::FontFamily => "font-family",
        StylePropTag::FontWeight => "font-weight",
        StylePropTag::Color => "color",
        StylePropTag::FontStyle => "font-style",
        StylePropTag::TextDecoration => "text-decoration",
        StylePropTag::MaxLines => "max-lines",
        StylePropTag::TextOverflow => "text-overflow",
        StylePropTag::Cursor => "cursor",
        StylePropTag::DefaultColor => "default-color",
        StylePropTag::DefaultFontFamily => "default-font-family",
        StylePropTag::DefaultFontSize => "default-font-size",
        StylePropTag::DefaultFontWeight => "default-font-weight",
        StylePropTag::ZIndex => "z-index",
        StylePropTag::TransitionDuration => "transition-duration",
        StylePropTag::TransitionTiming => "transition-timing",
    }
}

/// The properties whose change re-shapes inline text.
pub open spec fn shapes_text(tag: StylePropTag) -> bool {
    tag == StylePropTag::FontSize || tag == StylePropTag::FontFamily || tag == StylePropTag::FontWeight
        || tag == StylePropTag::FontStyle || tag == StylePropTag::Color || tag
        == StylePropTag::TextDecoration
}

/// Whether a pseudo-class block declares a property that re-shapes inline text (font
/// size, family, weight or style, color, or text decoration).
pub fn pseudo_affects_text_shaping(props: &[StylePropTag]) -> (r: bool)
    ensures
        r == exists|i: int| 0 <= i < props@.len() && shapes_text(#[trigger] props@[i]),
{
    let mut i: usize = 0;
    while i < props.len()
        invariant
            i <= props@.len(),
            forall|k: int| 0 <= k < i ==> !shapes_text(#[trigger] props@[k]),
        decreases props@.len() - i,
    {
        let t = props[i];
        let hit = match t {
            StylePropTag::FontSize | StylePropTag::FontFamily | StylePropTag::FontWeight
            | StylePropTag::FontStyle | StylePropTag::Color | StylePropTag::TextDecoration => true,
            _ => false,
        };
        if hit {
            assert(shapes_text(props@[i as int]));
            return true;
        }
        i = i + 1;
    }
    false
}

/// Whether `unset` of `kind` removes a declaration of property `tag`: each unsettable
/// kind removes the declarations of its own property.
pub fn unset_removes(kind: StylePropKind, tag: StylePropTag) -> (r: bool)
    ensures
        r == match kind {
            StylePropKind::Color => tag == StylePropTag::Color,
            StylePropKind::FontSize => tag == StylePropTag::FontSize,
            StylePropKind::FontFamily => tag == StylePropTag::FontFamily,
            StylePropKind::FontWeight => tag == StylePropTag::FontWeight,
        },
{
    match (kind, tag) {
        (StylePropKind::Color, StylePropTag::Color) => true,
        (StylePropKind::FontSize, StylePropTag::FontSize) => true,
        (StylePropKind::FontFamily, StylePropTag::FontFamily) => true,
        (StylePropKind::FontWeight, StylePropTag::FontWeight) => true,
        _ => false,
    }
}

} // verus!
