//! The physical pointer device behind a pointer interaction: mouse, touch or pen.
//!
//! This axis is independent of the input modality that drives `:focus-visible`:
//! a touch press and a mouse press are both pointer modality, but different kinds.
use vstd::prelude::*;
use crate::byte_text::str_eq;

verus! {

/// The device that produced a pointer interaction.
#[derive(Clone, Copy, Debug, PartialEq, Eq, Structural)]
pub enum PointerKind {
    Mouse,
    Touch,
    Pen,
}

/// The wire discriminant of a kind: mouse 0, touch 1, pen 2.
pub open spec fn pointer_wire(k: PointerKind) -> u32 {
    match k {
        PointerKind::Mouse => 0,
        PointerKind::Touch => 1,
        PointerKind::Pen => 2,
    }
}

/// The kind of a wire discriminant; unknown values decode to `Mouse`.
pub open spec fn pointer_of_wire(v: u32) -> PointerKind {
    if v == 1 {
        PointerKind::Touch
    } else if v == 2 {
        PointerKind::Pen
    } else {
        PointerKind::Mouse
    }
}

impl PointerKind {
    /// The kind named by a DOM `pointerType`. Unknown values (the empty string some
    /// engines report among them) fall back to `Mouse`, keeping the mouse paths.
    pub fn from_dom(value: &str) -> (r: Self)
        ensures
            r == if value@ == "touch"@ {
                PointerKind::Touch
            } else if value@ == "pen"@ {
                PointerKind::Pen
            } else {
                PointerKind::Mouse
            },
    {
        if str_eq(value, "touch") {
            PointerKind::Touch
        } else if str_eq(value, "pen") {
            PointerKind::Pen
        } else {
            PointerKind::Mouse
        }
    }

    /// The wire discriminant (`mouse=0`, `touch=1`, `pen=2`).
    pub fn to_u32(self) -> (r: u32)
        ensures
            r == pointer_wire(self),
    {
        match self {
            PointerKind::Mouse => 0,
            PointerKind::Touch => 1,
            PointerKind::Pen => 2,
        }
    }

    /// The inverse of `to_u32`; unknown discriminants fall back to `Mouse`.
    pub fn from_u32(value: u32) -> (r: Self)
        ensures
            r == pointer_of_wire(value),
    {
        match value {
            1 => PointerKind::Touch,
            2 => PointerKind::Pen,
            _ => PointerKind::Mouse,
        }
    }
}

/// Decoding the wire discriminant of a kind gives the kind back, and every value
/// outside the three discriminants decodes to `Mouse`.
pub proof fn law_wire_round_trip(k: PointerKind, v: u32)
    ensures
        pointer_of_wire(pointer_wire(k)) == k,
        v > 2 ==> pointer_of_wire(v) == PointerKind::Mouse,
        pointer_wire(pointer_of_wire(v)) == v || pointer_of_wire(v) == PointerKind::Mouse,
{
}

} // verus!
