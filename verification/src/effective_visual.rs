//! Text style inheritance: an element's unset text fields are filled from the text
//! element it sits in (the text-local channel) and from the ambient defaults of its
//! ancestors (the ambient channel).
//!
//! Colors, sizes and weights are held as the bits of their values; inheritance only
//! moves them.
use vstd::prelude::*;
use crate::ambient_defaults::{
    black, black_spec, clone_opt, hard_spec, merge_spec, AmbientDefaults, AmbientModel,
    ColorBits, DEFAULT_FONT_SIZE_BITS,
};
use crate::byte_text::opt_chars;
use crate::kind::ElementKind;
use crate::style::{FontStyleValue, TextDecorationValue};

verus! {

/// The text fields of an element's own visual that inheritance reads and fills: its
/// text style, and the `default-*` properties it sets for its subtree.
pub struct TextVisual {
    pub text_color: Option<ColorBits>,
    pub font_size: Option<u32>,
    pub font_weight: Option<u32>,
    pub font_family: Option<String>,
    pub font_style: Option<FontStyleValue>,
    pub text_decoration: Option<TextDecorationValue>,
    pub default_color: Option<ColorBits>,
    pub default_font_size: Option<u32>,
    pub default_font_family: Option<String>,
    pub default_font_weight: Option<u32>,
}

/// [`TextVisual`] as values.
pub struct TextVisualModel {
    pub text_color: Option<ColorBits>,
    pub font_size: Option<u32>,
    pub font_weight: Option<u32>,
    pub font_family: Option<Seq<char>>,
    pub font_style: Option<FontStyleValue>,
    pub text_decoration: Option<TextDecorationValue>,
    pub default_color: Option<ColorBits>,
    pub default_font_size: Option<u32>,
    pub default_font_family: Option<Seq<char>>,
    pub default_font_weight: Option<u32>,
}

impl View for TextVisual {
    type V = TextVisualModel;

    open spec fn view(&self) -> TextVisualModel {
        TextVisualModel {
            text_color: self.text_color,
            font_size: self.font_size,
            font_weight: self.font_weight,
            font_family: opt_chars(self.font_family),
            font_style: self.font_style,
            text_decoration: self.text_decoration,
            default_color: self.default_color,
            default_font_size: self.default_font_size,
            default_font_family: opt_chars(self.default_font_family),
            default_font_weight: self.default_font_weight,
        }
    }
}

/// The text style a text element hands on to the text inside it.
pub struct TextLocalInherited {
    pub color: ColorBits,
    pub font_size: u32,
    pub font_weight: Option<u32>,
    pub font_family: Option<String>,
    pub font_style: Option<FontStyleValue>,
    pub text_decoration: Option<TextDecorationValue>,
}

/// [`TextLocalInherited`] as values.
pub struct TextLocalModel {
    pub color: ColorBits,
    pub font_size: u32,
    pub font_weight: Option<u32>,
    pub font_family: Option<Seq<char>>,
    pub font_style: Option<FontStyleValue>,
    pub text_decoration: Option<TextDecorationValue>,
}

impl View for TextLocalInherited {
    type V = TextLocalModel;

    open spec fn view(&self) -> TextLocalModel {
        TextLocalModel {
            color: self.color,
            font_size: self.font_size,
            font_weight: self.font_weight,
            font_family: opt_chars(self.font_family),
            font_style: self.font_style,
            text_decoration: self.text_decoration,
        }
    }
}

/// What a text element with inherited visual `v` hands on: its color (black when
/// unset), its size (the default size when unset) and its other text fields as they
/// are.
pub open spec fn from_base_spec(v: TextVisualModel) -> TextLocalModel {
    TextLocalModel {
        color: match v.text_color {
            Some(c) => c,
            None => black_spec(),
        },
        font_size: match v.font_size {
            Some(s) => s,
            None => DEFAULT_FONT_SIZE_BITS,
        },
        font_weight: v.font_weight,
        font_family: v.font_family,
        font_style: v.font_style,
        text_decoration: v.text_decoration,
    }
}

impl TextLocalInherited {
    /// What a text element with inherited visual `visual` hands on (see
    /// [`from_base_spec`]).
    pub fn from_inherited_base(visual: &TextVisual) -> (r: Self)
        ensures
            r@ == from_base_spec(visual@),
    {
        TextLocalInherited {
            color: match visual.text_color {
                Some(c) => c,
                None => black(),
            },
            font_size: match visual.font_size {
                Some(s) => s,
                None => DEFAULT_FONT_SIZE_BITS,
            },
            font_weight: visual.font_weight,
            font_family: clone_opt(&visual.font_family),
            font_style: visual.font_style,
            text_decoration: visual.text_decoration,
        }
    }
}

/// The inheritance context of an element: the ambient defaults, and the text-local
/// style when its parent is a text element.
pub struct InheritedVisualContext {
    pub ambient: AmbientDefaults,
    pub text_local: Option<TextLocalInherited>,
}

/// [`InheritedVisualContext`] as values.
pub struct ContextModel {
    pub ambient: AmbientModel,
    pub text_local: Option<TextLocalModel>,
}

impl View for InheritedVisualContext {
    type V = ContextModel;

    open spec fn view(&self) -> ContextModel {
        ContextModel {
            ambient: self.ambient@,
            text_local: match self.text_local {
                Some(t) => Some(t@),
                None => None,
            },
        }
    }
}

impl InheritedVisualContext {
    /// The context of the document root: the hard ambient defaults, no text-local style.
    pub fn root() -> (r: Self)
        ensures
            r@ == (ContextModel { ambient: hard_spec(), text_local: None }),
    {
        InheritedVisualContext { ambient: AmbientDefaults::hard(), text_local: None }
    }
}

/// `own` with its unset text fields inherited: color and size from the text-local
/// style, else the ambient defaults (so both end up set); weight and family from the
/// text-local style where it sets them, else the ambient defaults; font style and
/// decoration from the text-local style only. Set fields and the `default-*`
/// properties stay as they are.
pub open spec fn inherit_spec(ctx: ContextModel, own: TextVisualModel) -> TextVisualModel {
    TextVisualModel {
        text_color: match own.text_color {
            Some(c) => Some(c),
            None => match ctx.text_local {
                Some(t) => Some(t.color),
                None => Some(ctx.ambient.color),
            },
        },
        font_size: match own.font_size {
            Some(s) => Some(s),
            None => match ctx.text_local {
                Some(t) => Some(t.font_size),
                None => Some(ctx.ambient.font_size),
            },
        },
        font_weight: match own.font_weight {
            Some(w) => Some(w),
            None => match ctx.text_local {
                Some(t) if t.font_weight is Some => t.font_weight,
                _ => ctx.ambient.font_weight,
            },
        },
        font_family: match own.font_family {
            Some(f) => Some(f),
            None => match ctx.text_local {
                Some(t) if t.font_family is Some => t.font_family,
                _ => ctx.ambient.font_family,
            },
        },
        font_style: match own.font_style {
            Some(s) => Some(s),
            None => match ctx.text_local {
                Some(t) => t.font_style,
                None => None,
            },
        },
        text_decoration: match own.text_decoration {
            Some(d) => Some(d),
            None => match ctx.text_local {
                Some(t) => t.text_decoration,
                None => None,
            },
        },
        ..own
    }
}

/// `own` with its unset text fields inherited from `ctx` (see [`inherit_spec`]).
pub fn apply_text_inheritance(ctx: &InheritedVisualContext, own: &TextVisual) -> (r: TextVisual)
    ensures
        r@ == inherit_spec(ctx@, own@),
{
    let text_color = match own.text_color {
        Some(c) => Some(c),
        None => match &ctx.text_local {
            Some(t) => Some(t.color),
            None => Some(ctx.ambient.color),
        },
    };
    let font_size = match own.font_size {
        Some(s) => Some(s),
        None => match &ctx.text_local {
            Some(t) => Some(t.font_size),
            None => Some(ctx.ambient.font_size),
        },
    };
    let font_weight = match own.font_weight {
        Some(w) => Some(w),
        None => match &ctx.text_local {
            Some(t) if t.font_weight.is_some() => t.font_weight,
            _ => ctx.ambient.font_weight,
        },
    };
    let font_family = match &own.font_family {
        Some(f) => Some(f.clone()),
        None => match &ctx.text_local {
            Some(t) if t.font_family.is_some() => clone_opt(&t.font_family),
            _ => clone_opt(&ctx.ambient.font_family),
        },
    };
    let font_style = match own.font_style {
        Some(s) => Some(s),
        None => match &ctx.text_local {
            Some(t) => t.font_style,
            None => None,
        },
    };
    let text_decoration = match own.text_decoration {
        Some(d) => Some(d),
        None => match &ctx.text_local {
            Some(t) => t.text_decoration,
            None => None,
        },
    };
    TextVisual {
        text_color,
        font_size,
        font_weight,
        font_family,
        font_style,
        text_decoration,
        default_color: own.default_color,
        default_font_size: own.default_font_size,
        default_font_family: clone_opt(&own.default_font_family),
        default_font_weight: own.default_font_weight,
    }
}

/// The context of a child: the parent's ambient defaults merged with the `default-*`
/// properties the parent sets, and, under a text element, the style it hands on.
pub open spec fn child_spec(
    parent: ContextModel,
    parent_kind: ElementKind,
    parent_inherited_base: TextVisualModel,
    parent_own: TextVisualModel,
) -> ContextModel {
    ContextModel {
        ambient: merge_spec(parent.ambient, parent_own),
        text_local: if parent_kind == ElementKind::Text {
            Some(from_base_spec(parent_inherited_base))
        } else {
            None
        },
    }
}

/// The context of a child of a parent with context `parent_ctx` (see [`child_spec`]):
/// one step of inheritance, the one primitive both the top-down and the ancestor walks
/// go through.
pub fn child_inherited_context(
    parent_ctx: &InheritedVisualContext,
    parent_kind: ElementKind,
    parent_inherited_base: &TextVisual,
    parent_own: &TextVisual,
) -> (r: InheritedVisualContext)
    ensures
        r@ == child_spec(parent_ctx@, parent_kind, parent_inherited_base@, parent_own@),
{
    InheritedVisualContext {
        ambient: parent_ctx.ambient.merge_visual(parent_own),
        text_local: if parent_kind == ElementKind::Text {
            Some(TextLocalInherited::from_inherited_base(parent_inherited_base))
        } else {
            None
        },
    }
}

/// Inheritance only fills unset fields: a field an element sets itself is kept, and
/// after inheritance the color and the size are always set.
pub proof fn law_inheritance_keeps_own_fields(ctx: ContextModel, own: TextVisualModel)
    ensures
        own.text_color is Some ==> inherit_spec(ctx, own).text_color == own.text_color,
        own.font_size is Some ==> inherit_spec(ctx, own).font_size == own.font_size,
        own.font_weight is Some ==> inherit_spec(ctx, own).font_weight == own.font_weight,
        own.font_family is Some ==> inherit_spec(ctx, own).font_family == own.font_family,
        own.font_style is Some ==> inherit_spec(ctx, own).font_style == own.font_style,
        own.text_decoration is Some ==> inherit_spec(ctx, own).text_decoration
            == own.text_decoration,
        inherit_spec(ctx, own).text_color is Some,
        inherit_spec(ctx, own).font_size is Some,
{
}

/// Inheriting twice from one context is inheriting once.
pub proof fn law_inheritance_is_idempotent(ctx: ContextModel, own: TextVisualModel)
    ensures
        inherit_spec(ctx, inherit_spec(ctx, own)) == inherit_spec(ctx, own),
{
}

/// A visual that sets no text field and no `default-*` property.
pub open spec fn unstyled() -> TextVisualModel {
    TextVisualModel {
        text_color: None,
        font_size: None,
        font_weight: None,
        font_family: None,
        font_style: None,
        text_decoration: None,
        default_color: None,
        default_font_size: None,
        default_font_family: None,
        default_font_weight: None,
    }
}

/// Inside a text element the text-local channel wins: an unset color, size, font style
/// or decoration is the one the enclosing text hands on, and an unset weight or family
/// is too when the enclosing text has one. Only where there is no text-local value do
/// the ambient defaults fill in (color and size always; weight and family when set).
pub proof fn law_text_local_style_wins(ctx: ContextModel, own: TextVisualModel)
    ensures
        ({
            let r = inherit_spec(ctx, own);
            &&& (ctx.text_local matches Some(t) ==> {
                &&& own.text_color is None ==> r.text_color == Some(t.color)
                &&& own.font_size is None ==> r.font_size == Some(t.font_size)
                &&& own.font_style is None ==> r.font_style == t.font_style
                &&& own.text_decoration is None ==> r.text_decoration == t.text_decoration
                &&& (own.font_weight is None && t.font_weight is Some) ==> r.font_weight
                    == t.font_weight
                &&& (own.font_family is None && t.font_family is Some) ==> r.font_family
                    == t.font_family
                &&& (own.font_weight is None && t.font_weight is None) ==> r.font_weight
                    == ctx.ambient.font_weight
                &&& (own.font_family is None && t.font_family is None) ==> r.font_family
                    == ctx.ambient.font_family
            })
            &&& (ctx.text_local is None ==> {
                &&& own.text_color is None ==> r.text_color == Some(ctx.ambient.color)
                &&& own.font_size is None ==> r.font_size == Some(ctx.ambient.font_size)
                &&& own.font_weight is None ==> r.font_weight == ctx.ambient.font_weight
                &&& own.font_family is None ==> r.font_family == ctx.ambient.font_family
                &&& own.font_style is None ==> r.font_style is None
                &&& own.text_decoration is None ==> r.text_decoration is None
            })
            &&& r.default_color == own.default_color
            &&& r.default_font_size == own.default_font_size
            &&& r.default_font_family == own.default_font_family
            &&& r.default_font_weight == own.default_font_weight
        }),
{
}

/// Text nested in a text element looks like it: an unstyled child of a text parent
/// ends up with the parent's effective color, size, font style and decoration, and
/// with its weight and family where the parent has them.
pub proof fn law_nested_text_looks_like_its_parent(parent_ctx: ContextModel, parent_own: TextVisualModel)
    ensures
        ({
            let base = inherit_spec(parent_ctx, parent_own);
            let child = inherit_spec(
                child_spec(parent_ctx, ElementKind::Text, base, parent_own),
                unstyled(),
            );
            &&& child.text_color == base.text_color
            &&& child.font_size == base.font_size
            &&& child.font_style == base.font_style
            &&& child.text_decoration == base.text_decoration
            &&& base.font_weight is Some ==> child.font_weight == base.font_weight
            &&& base.font_family is Some ==> child.font_family == base.font_family
        }),
{
}

/// Below a non-text element only the ambient defaults pass: an unstyled child takes
/// the `default-*` properties its parent sets, else the defaults the parent itself was
/// under; it inherits no font style or decoration.
pub proof fn law_block_parent_passes_only_defaults(
    parent_ctx: ContextModel,
    parent_kind: ElementKind,
    parent_base: TextVisualModel,
    parent_own: TextVisualModel,
)
    requires
        parent_kind != ElementKind::Text,
    ensures
        ({
            let child = inherit_spec(
                child_spec(parent_ctx, parent_kind, parent_base, parent_own),
                unstyled(),
            );
            &&& child.text_color == Some(
                match parent_own.default_color {
                    Some(c) => c,
                    None => parent_ctx.ambient.color,
                },
            )
            &&& child.font_size == Some(
                match parent_own.default_font_size {
                    Some(z) => z,
                    None => parent_ctx.ambient.font_size,
                },
            )
            &&& child.font_weight == (if parent_own.default_font_weight is Some {
                parent_own.default_font_weight
            } else {
                parent_ctx.ambient.font_weight
            })
            &&& child.font_family == (if parent_own.default_font_family is Some {
                parent_own.default_font_family
            } else {
                parent_ctx.ambient.font_family
            })
            &&& child.font_style is None
            &&& child.text_decoration is None
        }),
{
}

} // verus!
