use vstd::prelude::*;

verus! {

/// Identity of one element in the document tree: a wire-level `u64`.
#[derive(Clone, Copy, Debug, PartialEq, Eq, Hash, Structural)]
pub struct ElementId {
    raw: u64,
}

impl View for ElementId {
    type V = u64;

    closed spec fn view(&self) -> u64 {
        self.raw
    }
}

impl ElementId {
    /// The element with wire id `raw`.
    pub fn from_u64(raw: u64) -> (r: Self)
        ensures
            r@ == raw,
    {
        ElementId { raw }
    }

    /// The wire id of this element.
    pub fn to_u64(self) -> (r: u64)
        ensures
            r == self@,
    {
        self.raw
    }

    /// Two ids are equal exactly when their wire ids are.
    pub proof fn lemma_view_injective(a: Self, b: Self)
        ensures
            (a == b) <==> (a@ == b@),
    {
    }
}

} // verus!
