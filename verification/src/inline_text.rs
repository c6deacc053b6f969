//! Inline formatting contexts: which `text` elements flow inline inside another
//! `text` element, and which one roots the run of inline text they belong to.
//!
//! The element tree is given as a table of `(element, facts)` entries, the first
//! entry of an element being the one that counts; the facts are what these
//! functions read of an element.
use vstd::prelude::*;
use crate::id::ElementId;
use crate::kind::ElementKind;
use crate::style::TextOverflowValue;

verus! {

/// What inline layout reads of one element.
#[derive(Clone, Copy, Debug, PartialEq, Eq, Structural)]
pub struct NodeFacts {
    pub kind: ElementKind,
    pub parent: Option<ElementId>,
    /// The element's own `max-lines`, if set.
    pub max_lines: Option<u32>,
    /// The element's own `text-overflow`.
    pub text_overflow: TextOverflowValue,
}

/// The facts of `x`: those of its first entry, `None` when the table does not hold it.
pub open spec fn facts_of(elements: Seq<(ElementId, NodeFacts)>, x: ElementId) -> Option<NodeFacts>
    decreases elements.len(),
{
    if elements.len() == 0 {
        None
    } else if elements[0].0 == x {
        Some(elements[0].1)
    } else {
        facts_of(elements.drop_first(), x)
    }
}

/// `x` is a `text` element whose parent is a `text` element: its text flows inline.
pub open spec fn is_inline_spec(elements: Seq<(ElementId, NodeFacts)>, x: ElementId) -> bool {
    match facts_of(elements, x) {
        Some(n) => n.kind == ElementKind::Text && match n.parent {
            Some(p) => match facts_of(elements, p) {
                Some(pn) => pn.kind == ElementKind::Text,
                None => false,
            },
            None => false,
        },
        None => false,
    }
}

/// `x` roots an inline formatting context: a `text` element that is not inline.
pub open spec fn is_ifc_root_spec(elements: Seq<(ElementId, NodeFacts)>, x: ElementId) -> bool {
    match facts_of(elements, x) {
        Some(n) => n.kind == ElementKind::Text && !is_inline_spec(elements, x),
        None => false,
    }
}

/// Walks up from `x` through `text` elements for at most `fuel` parent steps:
/// `Some(Some(r))` on reaching the root `r`, `Some(None)` when the walk leaves the
/// text (an unknown or non-`text` element, or no parent), `None` when the steps run out.
pub open spec fn ifc_within(elements: Seq<(ElementId, NodeFacts)>, x: ElementId, fuel: nat) -> Option<
    Option<ElementId>,
>
    decreases fuel,
{
    match facts_of(elements, x) {
        None => Some(None),
        Some(n) => if n.kind != ElementKind::Text {
            Some(None)
        } else if is_ifc_root_spec(elements, x) {
            Some(Some(x))
        } else {
            match n.parent {
                None => Some(None),
                Some(p) => if fuel == 0 {
                    None
                } else {
                    ifc_within(elements, p, (fuel - 1) as nat)
                },
            }
        },
    }
}

/// The walk up from `x` ends instead of cycling through `text` elements forever.
pub open spec fn ifc_walk_ends(elements: Seq<(ElementId, NodeFacts)>, x: ElementId) -> bool {
    ifc_within(elements, x, elements.len()) is Some
}

/// The inline formatting root of the text `x` lies in.
pub open spec fn ifc_root_spec(elements: Seq<(ElementId, NodeFacts)>, x: ElementId) -> Option<ElementId> {
    ifc_within(elements, x, elements.len())->0
}

/// The facts of `x` in the table.
pub fn facts_lookup(elements: &[(ElementId, NodeFacts)], x: ElementId) -> (r: Option<NodeFacts>)
    ensures
        r == facts_of(elements@, x),
{
    let mut i: usize = 0;
    assert(elements@.subrange(0, elements@.len() as int) =~= elements@);
    while i < elements.len()
        invariant
            i <= elements@.len(),
            facts_of(elements@, x) == facts_of(elements@.subrange(i as int, elements@.len() as int), x),
        decreases elements@.len() - i,
    {
        let ghost rest = elements@.subrange(i as int, elements@.len() as int);
        assert(rest.drop_first() =~= elements@.subrange(i + 1, elements@.len() as int));
        if elements[i].0 == x {
            return Some(elements[i].1);
        }
        i = i + 1;
    }
    None
}

/// Whether `id` is a `text` element inside a `text` parent, so that its text flows
/// inline in the parent's formatting context.
pub fn is_inline_text_element(elements: &[(ElementId, NodeFacts)], id: ElementId) -> (r: bool)
    ensures
        r == is_inline_spec(elements@, id),
{
    let el = match facts_lookup(elements, id) {
        Some(e) => e,
        None => {
            return false;
        },
    };
    if el.kind != ElementKind::Text {
        return false;
    }
    match el.parent {
        Some(p) => match facts_lookup(elements, p) {
            Some(pn) => pn.kind == ElementKind::Text,
            None => false,
        },
        None => false,
    }
}

/// Whether `id` roots an inline formatting context: a `text` element that is not inline.
pub fn is_ifc_root(elements: &[(ElementId, NodeFacts)], id: ElementId) -> (r: bool)
    ensures
        r == is_ifc_root_spec(elements@, id),
{
    match facts_lookup(elements, id) {
        Some(el) => el.kind == ElementKind::Text && !is_inline_text_element(elements, id),
        None => false,
    }
}

/// From any text of a subtree, the inline formatting root that contains it; `None`
/// when the walk up leaves the text first.
pub fn ifc_root(elements: &[(ElementId, NodeFacts)], id: ElementId) -> (r: Option<ElementId>)
    requires
        ifc_walk_ends(elements@, id),
    ensures
        r == ifc_root_spec(elements@, id),
{
    let len = elements.len();
    let ghost n = elements@.len();
    let mut cur = id;
    let mut steps: usize = 0;
    loop
        invariant
            n == elements@.len(),
            n == len,
            steps <= n,
            ifc_within(elements@, cur, (n - steps) as nat) == ifc_within(elements@, id, n),
            ifc_within(elements@, id, n) is Some,
        decreases n - steps,
    {
        let el = match facts_lookup(elements, cur) {
            Some(e) => e,
            None => {
                return None;
            },
        };
        if el.kind != ElementKind::Text {
            return None;
        }
        if is_ifc_root(elements, cur) {
            return Some(cur);
        }
        match el.parent {
            None => {
                return None;
            },
            Some(p) => {
                assert((n - steps) as nat != 0);
                cur = p;
                steps = steps + 1;
            },
        }
    }
}

/// The line clamp of an inline formatting root: its own `max-lines` (with its
/// `text-overflow`) when set, else that of its parent block when set there, else no
/// clamp with the root's own `text-overflow`; an unknown root has no clamp and clips.
pub open spec fn line_clamp_spec(elements: Seq<(ElementId, NodeFacts)>, root: ElementId) -> (
    Option<u32>,
    TextOverflowValue,
) {
    match facts_of(elements, root) {
        None => (None, TextOverflowValue::Clip),
        Some(el) => if el.max_lines is Some {
            (el.max_lines, el.text_overflow)
        } else {
            match el.parent {
                Some(p) => match facts_of(elements, p) {
                    Some(pn) => if pn.max_lines is Some {
                        (pn.max_lines, pn.text_overflow)
                    } else {
                        (None, el.text_overflow)
                    },
                    None => (None, el.text_overflow),
                },
                None => (None, el.text_overflow),
            }
        },
    }
}

/// A line clamp travels with its `text-overflow`: when the root sets `max-lines` the
/// clamp is its own `max-lines` with its own `text-overflow`; a clamp taken from the
/// parent block comes with the parent's `text-overflow`, and only when the root sets
/// none; without a clamp the root keeps its own `text-overflow` (an unknown root clips).
pub proof fn law_line_clamp_travels_with_its_overflow(elements: Seq<(ElementId, NodeFacts)>, root: ElementId)
    ensures
        ({
            let r = line_clamp_spec(elements, root);
            let own = facts_of(elements, root);
            let up = facts_of(elements, own->0.parent->0);
            &&& (own is Some && own->0.max_lines is Some) ==> r == (
                own->0.max_lines,
                own->0.text_overflow,
            )
            &&& r.0 is Some ==> own is Some && ((own->0.max_lines == r.0
                && own->0.text_overflow == r.1) || (own->0.max_lines is None && own->0.parent is Some
                && up is Some && up->0.max_lines == r.0 && up->0.text_overflow == r.1))
            &&& (r.0 is None && own is Some) ==> (r.1 == own->0.text_overflow && own->0.max_lines is None)
            &&& own is None ==> r == (None::<u32>, TextOverflowValue::Clip)
        }),
{
}

/// The line clamp of the inline formatting root `ifc_root_id`, inherited from the
/// block that contains it when the root sets none.
pub fn resolve_line_clamp(elements: &[(ElementId, NodeFacts)], ifc_root_id: ElementId) -> (r: (
    Option<u32>,
    TextOverflowValue,
))
    ensures
        r == line_clamp_spec(elements@, ifc_root_id),
{
    let el = match facts_lookup(elements, ifc_root_id) {
        Some(e) => e,
        None => {
            return (None, TextOverflowValue::Clip);
        },
    };
    if el.max_lines.is_some() {
        return (el.max_lines, el.text_overflow);
    }
    if let Some(p) = el.parent {
        if let Some(parent) = facts_lookup(elements, p) {
            if parent.max_lines.is_some() {
                return (parent.max_lines, parent.text_overflow);
            }
        }
    }
    (None, el.text_overflow)
}

/// The root found for a text is an inline formatting root, and every text element
/// that is no root shares the root of its parent.
pub proof fn law_ifc_root_is_a_root(elements: Seq<(ElementId, NodeFacts)>, x: ElementId)
    requires
        ifc_walk_ends(elements, x),
    ensures
        ifc_root_spec(elements, x) matches Some(r) ==> is_ifc_root_spec(elements, r),
        is_inline_spec(elements, x) ==> (facts_of(elements, x)->0.parent matches Some(p) && ifc_walk_ends(
            elements,
            p,
        ) && ifc_root_spec(elements, x) == ifc_root_spec(elements, p)),
{
    lemma_ifc_found_is_root(elements, x, elements.len());
    if is_inline_spec(elements, x) {
        let p = facts_of(elements, x)->0.parent->0;
        assert(elements.len() > 0);
        lemma_ifc_fuel(elements, p, (elements.len() - 1) as nat, elements.len());
    }
}

proof fn lemma_ifc_found_is_root(elements: Seq<(ElementId, NodeFacts)>, x: ElementId, fuel: nat)
    requires
        ifc_within(elements, x, fuel) is Some,
    ensures
        ifc_within(elements, x, fuel)->0 matches Some(r) ==> is_ifc_root_spec(elements, r),
    decreases fuel,
{
    if let Some(n) = facts_of(elements, x) {
        if n.kind == ElementKind::Text && !is_ifc_root_spec(elements, x) {
            if let Some(p) = n.parent {
                lemma_ifc_found_is_root(elements, p, (fuel - 1) as nat);
            }
        }
    }
}

proof fn lemma_ifc_fuel(elements: Seq<(ElementId, NodeFacts)>, x: ElementId, fuel: nat, more: nat)
    requires
        ifc_within(elements, x, fuel) is Some,
        fuel <= more,
    ensures
        ifc_within(elements, x, more) == ifc_within(elements, x, fuel),
    decreases fuel,
{
    if let Some(n) = facts_of(elements, x) {
        if n.kind == ElementKind::Text && !is_ifc_root_spec(elements, x) {
            if let Some(p) = n.parent {
                lemma_ifc_fuel(elements, p, (fuel - 1) as nat, (more - 1) as nat);
            }
        }
    }
}

} // verus!
