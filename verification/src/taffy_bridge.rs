//! The context attached to each layout leaf, which its measure function branches on.
use vstd::prelude::*;
use crate::id::ElementId;

verus! {

/// The measure context of a layout leaf.
#[derive(Clone, Copy, Debug, PartialEq, Eq, Structural)]
pub enum MeasureCtx {
    /// A text leaf.
    Text(ElementId),
    /// A `text-input` leaf, which supplies a font-relative default content width
    /// when no explicit `width` is set.
    TextInput(ElementId),
    /// A leaf that measures nothing.
    NoMeasure,
}

} // verus!
