//! The element-local pseudo-classes and the pointer-driven interaction flags read
//! when resolving them.
//!
//! Element sets are given as slices, read as the set of their items. The parent
//! table of the document is a list of `(element, parent)` entries, the first entry
//! of an element being the one that counts.
use vstd::prelude::*;
use crate::id::ElementId;

verus! {

/// The element-local pseudo-classes: `:hover`, `:active` and `:focus`.
#[derive(Clone, Copy, Debug, PartialEq, Eq, Hash, Structural)]
pub enum PseudoState {
    Hover,
    Active,
    Focus,
}

/// Whether `x` is one of `items`.
pub fn contains_element(items: &[ElementId], x: ElementId) -> (r: bool)
    ensures
        r == items@.contains(x),
{
    let mut i: usize = 0;
    while i < items.len()
        invariant
            i <= items@.len(),
            forall|k: int| 0 <= k < i ==> items@[k] != x,
        decreases items@.len() - i,
    {
        if items[i] == x {
            assert(items@[i as int] == x);
            return true;
        }
        i = i + 1;
    }
    false
}

/// The pointer-driven interaction flags used in effective style resolution.
#[derive(Clone, Debug, PartialEq)]
pub struct InteractionSnapshot {
    /// The elements under `:hover`.
    pub hovered: Vec<ElementId>,
    /// The pressed (`:active`) element.
    pub active: Option<ElementId>,
    /// The focused element.
    pub focused: Option<ElementId>,
}

impl InteractionSnapshot {
    /// Whether `id` is hovered.
    pub fn is_hovered(&self, id: ElementId) -> (r: bool)
        ensures
            r == self.hovered@.contains(id),
    {
        contains_element(self.hovered.as_slice(), id)
    }

    /// Whether `id` is the pressed element.
    pub fn is_active(&self, id: ElementId) -> (r: bool)
        ensures
            r == (self.active == Some(id)),
    {
        match self.active {
            Some(a) => a == id,
            None => false,
        }
    }

    /// Whether `id` is the focused element.
    pub fn is_focused(&self, id: ElementId) -> (r: bool)
        ensures
            r == (self.focused == Some(id)),
    {
        match self.focused {
            Some(f) => f == id,
            None => false,
        }
    }
}

/// The items of `a` that are not in `b`, each once, in their order in `a`.
fn difference(a: &[ElementId], b: &[ElementId]) -> (r: Vec<ElementId>)
    ensures
        r@.no_duplicates(),
        r@.to_set() == a@.to_set().difference(b@.to_set()),
{
    let mut out: Vec<ElementId> = Vec::new();
    let mut i: usize = 0;
    while i < a.len()
        invariant
            i <= a@.len(),
            out@.no_duplicates(),
            out@.to_set() == a@.take(i as int).to_set().difference(b@.to_set()),
        decreases a@.len() - i,
    {
        let x = a[i];
        let ghost prev = out@;
        if !contains_element(b, x) && !contains_element(out.as_slice(), x) {
            out.push(x);
            proof {
                assert(prev.push(x).to_set() =~= prev.to_set().insert(x)) by {
                    assert forall|y: ElementId| prev.push(x).contains(y) implies prev.to_set().insert(x).contains(y) by {
                        let w = choose|k: int| 0 <= k < prev.push(x).len() && prev.push(x)[k] == y;
                        if w < prev.len() {
                            assert(prev[w] == y);
                        }
                    }
                    assert forall|y: ElementId| prev.to_set().insert(x).contains(y) implies #[trigger] prev.push(x).contains(y) by {
                        if y == x {
                            assert(prev.push(x)[prev.len() as int] == x);
                        } else {
                            let w = choose|k: int| 0 <= k < prev.len() && prev[k] == y;
                            assert(prev.push(x)[w] == y);
                        }
                    }
                }
            }
        }
        assert(a@.take(i + 1) =~= a@.take(i as int).push(x));
        assert(a@.take(i as int).push(x).to_set() =~= a@.take(i as int).to_set().insert(x)) by {
            let t = a@.take(i as int);
            assert forall|y: ElementId| t.push(x).contains(y) implies t.to_set().insert(x).contains(y) by {
                let w = choose|k: int| 0 <= k < t.push(x).len() && t.push(x)[k] == y;
                if w < t.len() {
                    assert(t[w] == y);
                }
            }
            assert forall|y: ElementId| t.to_set().insert(x).contains(y) implies #[trigger] t.push(x).contains(y) by {
                if y == x {
                    assert(t.push(x)[t.len() as int] == x);
                } else {
                    let w = choose|k: int| 0 <= k < t.len() && t[k] == y;
                    assert(t.push(x)[w] == y);
                }
            }
        }
        assert(out@.to_set() =~= a@.take(i + 1).to_set().difference(b@.to_set()));
        i = i + 1;
    }
    assert(a@.take(a@.len() as int) =~= a@);
    out
}

/// Splits the change between two hover sets into the elements entered (in `next`
/// only) and left (in `prev` only), each listed once.
pub fn diff_hover_sets(prev: &[ElementId], next: &[ElementId]) -> (r: (Vec<ElementId>, Vec<ElementId>))
    ensures
        r.0@.no_duplicates(),
        r.1@.no_duplicates(),
        r.0@.to_set() == next@.to_set().difference(prev@.to_set()),
        r.1@.to_set() == prev@.to_set().difference(next@.to_set()),
{
    let entered = difference(next, prev);
    let left = difference(prev, next);
    (entered, left)
}

/// The entry of `x` in an `(element, parent)` table: `Some(parent)` for a known
/// element, `None` for an element the table does not hold.
pub open spec fn entry_of(
    elements: Seq<(ElementId, Option<ElementId>)>,
    x: ElementId,
) -> Option<Option<ElementId>>
    decreases elements.len(),
{
    if elements.len() == 0 {
        None
    } else if elements[0].0 == x {
        Some(elements[0].1)
    } else {
        entry_of(elements.drop_first(), x)
    }
}

/// The chain from `x` up to the root, both included, stopping at the first element
/// the table does not hold; `None` when `fuel` parent steps do not reach its end.
pub open spec fn chain_within(
    elements: Seq<(ElementId, Option<ElementId>)>,
    x: ElementId,
    fuel: nat,
) -> Option<Seq<ElementId>>
    decreases fuel,
{
    match entry_of(elements, x) {
        None => Some(Seq::empty()),
        Some(None) => Some(seq![x]),
        Some(Some(p)) => if fuel == 0 {
            None
        } else {
            match chain_within(elements, p, (fuel - 1) as nat) {
                Some(c) => Some(seq![x] + c),
                None => None,
            }
        },
    }
}

/// The ancestor chain of `x` ends (no cycle is met on the way up).
pub open spec fn chain_ends(elements: Seq<(ElementId, Option<ElementId>)>, x: ElementId) -> bool {
    chain_within(elements, x, elements.len()) is Some
}

/// The ancestor chain of `x`, `x` first and the root last.
pub open spec fn ancestors(elements: Seq<(ElementId, Option<ElementId>)>, x: ElementId) -> Seq<
    ElementId,
> {
    chain_within(elements, x, elements.len())->0
}

fn entry_lookup(elements: &[(ElementId, Option<ElementId>)], x: ElementId) -> (r: Option<
    Option<ElementId>,
>)
    ensures
        r == entry_of(elements@, x),
{
    let mut i: usize = 0;
    assert(elements@.subrange(0, elements@.len() as int) =~= elements@);
    while i < elements.len()
        invariant
            i <= elements@.len(),
            entry_of(elements@, x) == entry_of(elements@.subrange(i as int, elements@.len() as int), x),
        decreases elements@.len() - i,
    {
        let ghost rest = elements@.subrange(i as int, elements@.len() as int);
        assert(rest.drop_first() =~= elements@.subrange(i + 1, elements@.len() as int));
        let (id, parent) = elements[i];
        if id == x {
            return Some(parent);
        }
        i = i + 1;
    }
    None
}

/// The chain from `id` to the root, both included, through the elements the table holds.
pub fn ancestor_chain(elements: &[(ElementId, Option<ElementId>)], id: ElementId) -> (r: Vec<
    ElementId,
>)
    requires
        chain_ends(elements@, id),
    ensures
        r@ == ancestors(elements@, id),
{
    let len = elements.len();
    let ghost n = elements@.len();
    let mut chain: Vec<ElementId> = Vec::new();
    let mut cur = id;
    let mut steps: usize = 0;
    loop
        invariant
            n == elements@.len(),
            n == len,
            steps <= n,
            chain_within(elements@, cur, (n - steps) as nat) is Some,
            chain@ + chain_within(elements@, cur, (n - steps) as nat)->0 == ancestors(elements@, id),
        decreases n - steps,
    {
        match entry_lookup(elements, cur) {
            None => {
                assert(chain@ + Seq::<ElementId>::empty() =~= chain@);
                return chain;
            },
            Some(None) => {
                chain.push(cur);
                return chain;
            },
            Some(Some(p)) => {
                assert((n - steps) as nat != 0);
                let ghost rest = chain_within(elements@, p, (n - steps - 1) as nat)->0;
                chain.push(cur);
                assert(chain@ + rest =~= (chain@.drop_last() + (seq![cur] + rest)));
                cur = p;
                steps = steps + 1;
            },
        }
    }
}

/// The `:hover` set of a hit: the deepest element hit and all its ancestors.
pub fn hover_set_for_hit(elements: &[(ElementId, Option<ElementId>)], deepest_hit: ElementId) -> (r:
    Vec<ElementId>)
    requires
        chain_ends(elements@, deepest_hit),
    ensures
        r@.to_set() == ancestors(elements@, deepest_hit).to_set(),
{
    ancestor_chain(elements, deepest_hit)
}

/// An element in the table heads its own ancestor chain, which climbs to its parent's.
pub proof fn law_chain_starts_at_the_element(
    elements: Seq<(ElementId, Option<ElementId>)>,
    x: ElementId,
    p: ElementId,
)
    requires
        chain_ends(elements, x),
    ensures
        entry_of(elements, x) is Some ==> ancestors(elements, x).len() > 0 && ancestors(elements, x)[0] == x,
        entry_of(elements, x) is None ==> ancestors(elements, x).len() == 0,
        entry_of(elements, x) == Some(Some(p)) ==> chain_ends(elements, p) && ancestors(elements, x)
            == seq![x] + ancestors(elements, p),
{
    if entry_of(elements, x) == Some(Some(p)) {
        let n = elements.len();
        assert(n > 0);
        lemma_chain_fuel(elements, p, (n - 1) as nat, n);
    }
}

proof fn lemma_chain_fuel(
    elements: Seq<(ElementId, Option<ElementId>)>,
    x: ElementId,
    fuel: nat,
    more: nat,
)
    requires
        chain_within(elements, x, fuel) is Some,
        fuel <= more,
    ensures
        chain_within(elements, x, more) == chain_within(elements, x, fuel),
    decreases fuel,
{
    if let Some(Some(p)) = entry_of(elements, x) {
        lemma_chain_fuel(elements, p, (fuel - 1) as nat, (more - 1) as nat);
    }
}

} // verus!
