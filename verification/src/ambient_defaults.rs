//! The ambient default text style: block-penetrating defaults that `default-*` style
//! properties set on any ancestor.
//!
//! Colors, sizes and weights are held as the bits of their values (a color as the bits
//! of its red, green, blue and alpha); inheritance only moves them, never computes.
use vstd::prelude::*;
use crate::byte_text::opt_chars;
use crate::effective_visual::{TextVisual, TextVisualModel};

verus! {

/// The bits of a color's red, green, blue and alpha components.
pub type ColorBits = (u32, u32, u32, u32);

/// The bits of one, the alpha of an opaque color.
pub const OPAQUE_ALPHA_BITS: u32 = 0x3F80_0000u32;

/// Opaque black: zero color components and an alpha of one.
pub open spec fn black_spec() -> ColorBits {
    (0u32, 0u32, 0u32, OPAQUE_ALPHA_BITS)
}

/// Opaque black (see [`black_spec`]).
pub fn black() -> (r: ColorBits)
    ensures
        r == black_spec(),
{
    (0u32, 0u32, 0u32, OPAQUE_ALPHA_BITS)
}

/// The bits of the hard default font size, sixteen pixels.
pub const DEFAULT_FONT_SIZE_BITS: u32 = 0x4180_0000u32;

/// The bits of the hard default font weight, four hundred (regular).
pub const DEFAULT_FONT_WEIGHT_BITS: u32 = 0x43C8_0000u32;

/// The ambient defaults in effect at an element.
pub struct AmbientDefaults {
    pub color: ColorBits,
    pub font_size: u32,
    pub font_family: Option<String>,
    pub font_weight: Option<u32>,
}

/// [`AmbientDefaults`] as values.
pub struct AmbientModel {
    pub color: ColorBits,
    pub font_size: u32,
    pub font_family: Option<Seq<char>>,
    pub font_weight: Option<u32>,
}

impl View for AmbientDefaults {
    type V = AmbientModel;

    open spec fn view(&self) -> AmbientModel {
        AmbientModel {
            color: self.color,
            font_size: self.font_size,
            font_family: opt_chars(self.font_family),
            font_weight: self.font_weight,
        }
    }
}

/// The defaults at the document root: black, the default size and regular weight, no
/// family.
pub open spec fn hard_spec() -> AmbientModel {
    AmbientModel {
        color: black_spec(),
        font_size: DEFAULT_FONT_SIZE_BITS,
        font_family: None,
        font_weight: Some(DEFAULT_FONT_WEIGHT_BITS),
    }
}

/// The defaults below an element: each `default-*` property it sets replaces the
/// matching default; the others carry on.
pub open spec fn merge_spec(a: AmbientModel, v: TextVisualModel) -> AmbientModel {
    AmbientModel {
        color: match v.default_color {
            Some(c) => c,
            None => a.color,
        },
        font_size: match v.default_font_size {
            Some(s) => s,
            None => a.font_size,
        },
        font_family: match v.default_font_family {
            Some(f) => Some(f),
            None => a.font_family,
        },
        font_weight: match v.default_font_weight {
            Some(w) => Some(w),
            None => a.font_weight,
        },
    }
}

/// A copy of an optional string.
pub fn clone_opt(s: &Option<String>) -> (r: Option<String>)
    ensures
        opt_chars(r) == opt_chars(*s),
{
    match s {
        Some(t) => Some(t.clone()),
        None => None,
    }
}

impl AmbientDefaults {
    /// The defaults at the document root (see [`hard_spec`]).
    pub fn hard() -> (r: Self)
        ensures
            r@ == hard_spec(),
    {
        AmbientDefaults {
            color: black(),
            font_size: DEFAULT_FONT_SIZE_BITS,
            font_family: None,
            font_weight: Some(DEFAULT_FONT_WEIGHT_BITS),
        }
    }

    /// The defaults below an element whose own visual is `visual` (see [`merge_spec`]).
    pub fn merge_visual(&self, visual: &TextVisual) -> (r: Self)
        ensures
            r@ == merge_spec(self@, visual@),
    {
        AmbientDefaults {
            color: match visual.default_color {
                Some(c) => c,
                None => self.color,
            },
            font_size: match visual.default_font_size {
                Some(s) => s,
                None => self.font_size,
            },
            font_family: match &visual.default_font_family {
                Some(f) => Some(f.clone()),
                None => clone_opt(&self.font_family),
            },
            font_weight: match visual.default_font_weight {
                Some(w) => Some(w),
                None => self.font_weight,
            },
        }
    }
}

impl Default for AmbientDefaults {
    /// The same as [`AmbientDefaults::hard`].
    fn default() -> (r: Self)
        ensures
            r@ == hard_spec(),
    {
        Self::hard()
    }
}

} // verus!
