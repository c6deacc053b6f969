//! Compositing layer boundaries, and the derivation of which layers must be
//! re-rastered from which elements changed.
//!
//! An element is the boundary of its own compositing layer when one of the
//! triggers of the initial set holds of it. A layer's id is the `ElementId` of
//! its boundary element. Every element belongs to the nearest boundary on its
//! parent chain (itself included), or to no layer at all.
//!
//! The document tree's parent relation is given as a table of
//! `(child, parent)` pairs; the first pair whose child matches is the parent.
//! Sets of elements are given as slices, read as the set of their items.
use vstd::prelude::*;
use crate::id::ElementId;

verus! {

/// What makes an element the boundary of its own compositing layer.
#[derive(Clone, Copy, Debug, PartialEq, Eq, Hash, Structural)]
pub enum CompositingTrigger {
    /// An active transition or animation.
    Transition,
    /// A `transform` group.
    Transform,
    /// A scroll container.
    ScrollContainer,
}

impl CompositingTrigger {
    /// The initial trigger set, in the fixed order in which triggers are reported.
    pub const INITIAL_SET: [CompositingTrigger; 3] = [
        CompositingTrigger::Transition,
        CompositingTrigger::Transform,
        CompositingTrigger::ScrollContainer,
    ];
}

/// The compositing facts of one element, gathered from its live state.
#[derive(Clone, Copy, Debug, PartialEq, Eq, Structural)]
pub struct CompositingFacts {
    /// It has an active transition or animation.
    pub has_active_transition: bool,
    /// It has a `transform`.
    pub has_transform: bool,
    /// It is a scroll container.
    pub is_scroll_container: bool,
}

/// No facts hold.
impl Default for CompositingFacts {
    fn default() -> (r: Self)
        ensures
            !r.has_active_transition,
            !r.has_transform,
            !r.is_scroll_container,
    {
        CompositingFacts {
            has_active_transition: false,
            has_transform: false,
            is_scroll_container: false,
        }
    }
}

impl CompositingFacts {
    /// Whether `trigger` holds of these facts.
    pub open spec fn holds(self, trigger: CompositingTrigger) -> bool {
        match trigger {
            CompositingTrigger::Transition => self.has_active_transition,
            CompositingTrigger::Transform => self.has_transform,
            CompositingTrigger::ScrollContainer => self.is_scroll_container,
        }
    }

    /// The triggers that hold, in the order of the initial set.
    pub open spec fn triggers_spec(self) -> Seq<CompositingTrigger> {
        (if self.has_active_transition {
            seq![CompositingTrigger::Transition]
        } else {
            Seq::empty()
        }) + (if self.has_transform {
            seq![CompositingTrigger::Transform]
        } else {
            Seq::empty()
        }) + (if self.is_scroll_container {
            seq![CompositingTrigger::ScrollContainer]
        } else {
            Seq::empty()
        })
    }

    fn has(self, trigger: CompositingTrigger) -> (r: bool)
        ensures
            r == self.holds(trigger),
    {
        match trigger {
            CompositingTrigger::Transition => self.has_active_transition,
            CompositingTrigger::Transform => self.has_transform,
            CompositingTrigger::ScrollContainer => self.is_scroll_container,
        }
    }

    /// The triggers that hold for this element, in the order of the initial set.
    pub fn triggers(self) -> (r: Vec<CompositingTrigger>)
        ensures
            r@ == self.triggers_spec(),
    {
        let set = CompositingTrigger::INITIAL_SET;
        let mut out: Vec<CompositingTrigger> = Vec::new();
        if self.has(set[0]) {
            out.push(set[0]);
        }
        if self.has(set[1]) {
            out.push(set[1]);
        }
        if self.has(set[2]) {
            out.push(set[2]);
        }
        assert(out@ =~= self.triggers_spec());
        out
    }

    /// An element forms a layer when at least one trigger holds.
    pub fn forms_layer(self) -> (r: bool)
        ensures
            r == (self.has_active_transition || self.has_transform || self.is_scroll_container),
    {
        let set = CompositingTrigger::INITIAL_SET;
        let mut i: usize = 0;
        while i < 3
            invariant
                i <= 3,
                set@ == seq![
                    CompositingTrigger::Transition,
                    CompositingTrigger::Transform,
                    CompositingTrigger::ScrollContainer,
                ],
                forall|k: int| 0 <= k < i ==> !self.holds(#[trigger] set@[k]),
            decreases 3 - i,
        {
            if self.has(set[i]) {
                return true;
            }
            i = i + 1;
        }
        assert(!self.holds(set@[0]) && !self.holds(set@[1]) && !self.holds(set@[2]));
        false
    }

    /// An element forms a layer exactly when it reports some trigger, and it
    /// reports a trigger exactly when that trigger holds.
    pub proof fn law_forms_layer_iff_some_trigger(self)
        ensures
            (self.has_active_transition || self.has_transform || self.is_scroll_container)
                <==> self.triggers_spec().len() > 0,
            forall|t: CompositingTrigger| self.triggers_spec().contains(t) <==> self.holds(t),
    {
        let s = self.triggers_spec();
        assert forall|t: CompositingTrigger| s.contains(t) <==> self.holds(t) by {
            if self.holds(t) {
                match t {
                    CompositingTrigger::Transition => {
                        assert(s[0] == t);
                    },
                    CompositingTrigger::Transform => {
                        let k: int = if self.has_active_transition { 1 } else { 0 };
                        assert(s[k] == t);
                    },
                    CompositingTrigger::ScrollContainer => {
                        let k: int = (if self.has_active_transition { 1int } else { 0int }) + (
                        if self.has_transform {
                            1int
                        } else {
                            0int
                        });
                        assert(s[k] == t);
                    },
                }
            }
        }
    }
}

/// The parent of `x` in a `(child, parent)` table: the first pair whose child is `x`.
pub open spec fn parent_in(parents: Seq<(ElementId, ElementId)>, x: ElementId) -> Option<ElementId>
    decreases parents.len(),
{
    if parents.len() == 0 {
        None
    } else if parents[0].0 == x {
        Some(parents[0].1)
    } else {
        parent_in(parents.drop_first(), x)
    }
}

/// Walks up from `x` (itself first) for at most `fuel` parent steps: `Some(Some(b))` on
/// reaching the boundary `b`, `Some(None)` on reaching an element with no parent,
/// `None` when the steps run out first.
pub open spec fn enclosing_within(
    parents: Seq<(ElementId, ElementId)>,
    boundaries: Seq<ElementId>,
    x: ElementId,
    fuel: nat,
) -> Option<Option<ElementId>>
    decreases fuel,
{
    if boundaries.contains(x) {
        Some(Some(x))
    } else {
        match parent_in(parents, x) {
            None => Some(None),
            Some(p) => if fuel == 0 {
                None
            } else {
                enclosing_within(parents, boundaries, p, (fuel - 1) as nat)
            },
        }
    }
}

/// The walk up from `x` ends (at a boundary or at a root) instead of cycling forever.
/// A walk that visits no element twice takes at most one step per table entry.
pub open spec fn chain_resolves(
    parents: Seq<(ElementId, ElementId)>,
    boundaries: Seq<ElementId>,
    x: ElementId,
) -> bool {
    enclosing_within(parents, boundaries, x, parents.len()) is Some
}

/// The nearest boundary on the parent chain of `x`, `x` itself included.
pub open spec fn enclosing_layer(
    parents: Seq<(ElementId, ElementId)>,
    boundaries: Seq<ElementId>,
    x: ElementId,
) -> Option<ElementId> {
    enclosing_within(parents, boundaries, x, parents.len())->0
}

/// The parent layer of the layer whose boundary is `layer`: the nearest boundary
/// above it, itself excluded.
pub open spec fn layer_parent(
    parents: Seq<(ElementId, ElementId)>,
    boundaries: Seq<ElementId>,
    layer: ElementId,
) -> Option<ElementId> {
    match parent_in(parents, layer) {
        None => None,
        Some(p) => enclosing_layer(parents, boundaries, p),
    }
}

/// Giving the walk more steps changes nothing once it has ended.
pub proof fn lemma_enclosing_fuel(
    parents: Seq<(ElementId, ElementId)>,
    boundaries: Seq<ElementId>,
    x: ElementId,
    fuel: nat,
    more: nat,
)
    requires
        enclosing_within(parents, boundaries, x, fuel) is Some,
        fuel <= more,
    ensures
        enclosing_within(parents, boundaries, x, more) == enclosing_within(
            parents,
            boundaries,
            x,
            fuel,
        ),
    decreases fuel,
{
    if !boundaries.contains(x) {
        if let Some(p) = parent_in(parents, x) {
            lemma_enclosing_fuel(parents, boundaries, p, (fuel - 1) as nat, (more - 1) as nat);
        }
    }
}

/// Whether `x` is one of `items`.
fn contains_id(items: &[ElementId], x: ElementId) -> (r: bool)
    ensures
        r == items@.contains(x),
{
    let mut i: usize = 0;
    while i < items.len()
        invariant
            i <= items@.len(),
            forall|k: int| 0 <= k < i ==> items@[k] != x,
        decreases items@.len() - i,
    {
        if items[i] == x {
            assert(items@[i as int] == x);
            return true;
        }
        i = i + 1;
    }
    false
}

/// The parent of `x` in the table.
fn parent_of(parents: &[(ElementId, ElementId)], x: ElementId) -> (r: Option<ElementId>)
    ensures
        r == parent_in(parents@, x),
{
    let mut i: usize = 0;
    assert(parents@.subrange(0, parents@.len() as int) =~= parents@);
    while i < parents.len()
        invariant
            i <= parents@.len(),
            parent_in(parents@, x) == parent_in(parents@.subrange(i as int, parents@.len() as int), x),
        decreases parents@.len() - i,
    {
        let ghost rest = parents@.subrange(i as int, parents@.len() as int);
        assert(rest.drop_first() =~= parents@.subrange(i + 1, parents@.len() as int));
        let (child, parent) = parents[i];
        if child == x {
            return Some(parent);
        }
        i = i + 1;
    }
    None
}

/// The compositing layer that encloses `element`: the first boundary met walking up
/// its parent chain from the element itself, or `None` outside every layer.
pub fn nearest_enclosing_layer(
    element: ElementId,
    boundaries: &[ElementId],
    parents: &[(ElementId, ElementId)],
) -> (r: Option<ElementId>)
    requires
        chain_resolves(parents@, boundaries@, element),
    ensures
        r == enclosing_layer(parents@, boundaries@, element),
{
    let len = parents.len();
    let ghost n = parents@.len();
    let mut cursor = element;
    let mut steps: usize = 0;
    loop
        invariant
            steps <= n,
            n == parents@.len(),
            n == len,
            enclosing_within(parents@, boundaries@, cursor, (n - steps) as nat)
                == enclosing_within(parents@, boundaries@, element, n),
            enclosing_within(parents@, boundaries@, element, n) is Some,
        decreases n - steps,
    {
        if contains_id(boundaries, cursor) {
            return Some(cursor);
        }
        match parent_of(parents, cursor) {
            None => {
                return None;
            },
            Some(p) => {
                assert((n - steps) as nat != 0);
                cursor = p;
                steps = steps + 1;
            },
        }
    }
}

/// The layers to re-raster: the enclosing layer of every dirty element, each once.
/// Dirty elements outside every layer are ignored.
pub fn derive_layer_dirty(
    dirty: &[ElementId],
    boundaries: &[ElementId],
    parents: &[(ElementId, ElementId)],
) -> (r: Vec<ElementId>)
    requires
        forall|i: int| 0 <= i < dirty@.len() ==> chain_resolves(parents@, boundaries@, #[trigger] dirty@[i]),
    ensures
        r@.no_duplicates(),
        forall|y: ElementId| r@.contains(y) <==> exists|i: int|
            0 <= i < dirty@.len() && #[trigger] enclosing_layer(parents@, boundaries@, dirty@[i])
                == Some(y),
        forall|y: ElementId| r@.contains(y) ==> boundaries@.contains(y),
{
    let mut out: Vec<ElementId> = Vec::new();
    let mut i: usize = 0;
    while i < dirty.len()
        invariant
            i <= dirty@.len(),
            forall|k: int| 0 <= k < dirty@.len() ==> chain_resolves(parents@, boundaries@, #[trigger] dirty@[k]),
            out@.no_duplicates(),
            forall|y: ElementId| out@.contains(y) <==> exists|k: int|
                0 <= k < i && #[trigger] enclosing_layer(parents@, boundaries@, dirty@[k]) == Some(y),
        decreases dirty@.len() - i,
    {
        let layer = nearest_enclosing_layer(dirty[i], boundaries, parents);
        let ghost prev = out@;
        if let Some(y) = layer {
            if !contains_id(out.as_slice(), y) {
                out.push(y);
                proof {
                    assert(out@[out@.len() - 1] == y);
                    assert forall|z: ElementId| #[trigger] out@.contains(z) && z != y implies prev.contains(z) by {
                        let w = choose|k: int| 0 <= k < out@.len() && out@[k] == z;
                        assert(prev[w] == z);
                    }
                    assert forall|z: ElementId| prev.contains(z) implies #[trigger] out@.contains(z) by {
                        let w = choose|k: int| 0 <= k < prev.len() && prev[k] == z;
                        assert(out@[w] == z);
                    }
                }
            }
        }
        assert forall|y: ElementId| out@.contains(y) <==> exists|k: int|
            0 <= k < i + 1 && #[trigger] enclosing_layer(parents@, boundaries@, dirty@[k]) == Some(y) by {
            if out@.contains(y) && layer != Some(y) {
                assert(prev.contains(y));
                let w = choose|k: int| 0 <= k < i && #[trigger] enclosing_layer(parents@, boundaries@, dirty@[k]) == Some(y);
                assert(0 <= w < i + 1);
            }
            if layer == Some(y) {
                assert(out@.contains(y));
            }
            if exists|k: int| 0 <= k < i + 1 && #[trigger] enclosing_layer(parents@, boundaries@, dirty@[k]) == Some(y) {
                let w = choose|k: int| 0 <= k < i + 1 && #[trigger] enclosing_layer(parents@, boundaries@, dirty@[k]) == Some(y);
                if w < i {
                    assert(prev.contains(y));
                    assert(out@.contains(y));
                }
            }
        }
        i = i + 1;
    }
    assert forall|y: ElementId| out@.contains(y) implies boundaries@.contains(y) by {
        let w = choose|k: int| 0 <= k < dirty@.len() && #[trigger] enclosing_layer(parents@, boundaries@, dirty@[k]) == Some(y);
        law_enclosing_layer_is_a_boundary(parents@, boundaries@, dirty@[w]);
    }
    out
}

/// The compositing layer tree: the boundary elements, and the parent layer of each.
#[derive(Clone, Debug, PartialEq, Eq)]
pub struct LayerTree {
    /// Every layer id, in the order the layers were added.
    pub layers: Vec<ElementId>,
    /// The parent layer of each layer (`None` for a root layer), in the same order.
    pub parent: Vec<(ElementId, Option<ElementId>)>,
}

/// The first entry for `layer` in a table of parent layers.
pub open spec fn parent_entry(
    entries: Seq<(ElementId, Option<ElementId>)>,
    layer: ElementId,
) -> Option<Option<ElementId>>
    decreases entries.len(),
{
    if entries.len() == 0 {
        None
    } else if entries[0].0 == layer {
        Some(entries[0].1)
    } else {
        parent_entry(entries.drop_first(), layer)
    }
}

impl LayerTree {
    /// The recorded parent layer of `layer`, or `None` when `layer` is no layer of the tree.
    pub fn parent_of(&self, layer: ElementId) -> (r: Option<Option<ElementId>>)
        ensures
            r == parent_entry(self.parent@, layer),
    {
        let mut i: usize = 0;
        assert(self.parent@.subrange(0, self.parent@.len() as int) =~= self.parent@);
        while i < self.parent.len()
            invariant
                i <= self.parent@.len(),
                parent_entry(self.parent@, layer) == parent_entry(
                    self.parent@.subrange(i as int, self.parent@.len() as int),
                    layer,
                ),
            decreases self.parent@.len() - i,
        {
            let ghost rest = self.parent@.subrange(i as int, self.parent@.len() as int);
            assert(rest.drop_first() =~= self.parent@.subrange(i + 1, self.parent@.len() as int));
            if self.parent[i].0 == layer {
                return Some(self.parent[i].1);
            }
            i = i + 1;
        }
        None
    }
}

/// Every entry of `entries` names the parent layer of its layer.
pub open spec fn entries_are_parents(
    entries: Seq<(ElementId, Option<ElementId>)>,
    parents: Seq<(ElementId, ElementId)>,
    boundaries: Seq<ElementId>,
) -> bool {
    forall|k: int|
        0 <= k < entries.len() ==> (#[trigger] entries[k]).1 == layer_parent(
            parents,
            boundaries,
            entries[k].0,
        )
}

/// A table whose entries all name parent layers gives the parent layer of every
/// layer it lists.
pub proof fn lemma_parent_entry(
    entries: Seq<(ElementId, Option<ElementId>)>,
    parents: Seq<(ElementId, ElementId)>,
    boundaries: Seq<ElementId>,
    layer: ElementId,
)
    requires
        entries_are_parents(entries, parents, boundaries),
    ensures
        parent_entry(entries, layer) is Some ==> parent_entry(entries, layer) == Some(
            layer_parent(parents, boundaries, layer),
        ),
        (exists|k: int| 0 <= k < entries.len() && (#[trigger] entries[k]).0 == layer)
            ==> parent_entry(entries, layer) is Some,
    decreases entries.len(),
{
    if entries.len() > 0 {
        let rest = entries.drop_first();
        assert forall|k: int| 0 <= k < rest.len() implies (#[trigger] rest[k]).1 == layer_parent(
            parents,
            boundaries,
            rest[k].0,
        ) by {
            assert(rest[k] == entries[k + 1]);
        }
        lemma_parent_entry(rest, parents, boundaries, layer);
        if entries[0].0 != layer {
            if exists|k: int| 0 <= k < entries.len() && (#[trigger] entries[k]).0 == layer {
                let w = choose|k: int| 0 <= k < entries.len() && (#[trigger] entries[k]).0 == layer;
                assert(rest[w - 1] == entries[w]);
            }
        } else {
            assert(entries[0].1 == layer_parent(parents, boundaries, entries[0].0));
        }
    }
}

/// Builds the layer tree of the given boundaries: the parent of each layer is the
/// nearest other boundary above its boundary element.
pub fn build_layer_tree(
    boundaries_in_order: &[ElementId],
    boundaries: &[ElementId],
    parents: &[(ElementId, ElementId)],
) -> (r: LayerTree)
    requires
        forall|i: int|
            0 <= i < boundaries_in_order@.len() ==> match parent_in(
                parents@,
                #[trigger] boundaries_in_order@[i],
            ) {
                None => true,
                Some(p) => chain_resolves(parents@, boundaries@, p),
            },
    ensures
        r.layers@ == boundaries_in_order@,
        r.parent@.len() == boundaries_in_order@.len(),
        forall|i: int|
            0 <= i < r.parent@.len() ==> #[trigger] r.parent@[i] == (
                boundaries_in_order@[i],
                layer_parent(parents@, boundaries@, boundaries_in_order@[i]),
            ),
        entries_are_parents(r.parent@, parents@, boundaries@),
{
    let mut tree = LayerTree { layers: Vec::new(), parent: Vec::new() };
    let mut i: usize = 0;
    while i < boundaries_in_order.len()
        invariant
            i <= boundaries_in_order@.len(),
            forall|k: int|
                0 <= k < boundaries_in_order@.len() ==> match parent_in(
                    parents@,
                    #[trigger] boundaries_in_order@[k],
                ) {
                    None => true,
                    Some(p) => chain_resolves(parents@, boundaries@, p),
                },
            tree.layers@ == boundaries_in_order@.take(i as int),
            tree.parent@.len() == i,
            forall|k: int|
                0 <= k < i ==> #[trigger] tree.parent@[k] == (
                    boundaries_in_order@[k],
                    layer_parent(parents@, boundaries@, boundaries_in_order@[k]),
                ),
        decreases boundaries_in_order@.len() - i,
    {
        let layer = boundaries_in_order[i];
        let parent_layer = match parent_of(parents, layer) {
            None => None,
            Some(p) => nearest_enclosing_layer(p, boundaries, parents),
        };
        tree.layers.push(layer);
        tree.parent.push((layer, parent_layer));
        assert(tree.layers@ =~= boundaries_in_order@.take(i + 1));
        i = i + 1;
    }
    assert(tree.layers@ =~= boundaries_in_order@);
    tree
}

/// A boundary element is the boundary of its own layer, and the layer that
/// encloses any element is one of the boundaries.
pub proof fn law_enclosing_layer_is_a_boundary(
    parents: Seq<(ElementId, ElementId)>,
    boundaries: Seq<ElementId>,
    x: ElementId,
)
    ensures
        boundaries.contains(x) ==> enclosing_layer(parents, boundaries, x) == Some(x),
        chain_resolves(parents, boundaries, x) ==> match enclosing_layer(parents, boundaries, x) {
            Some(b) => boundaries.contains(b),
            None => true,
        },
{
    if chain_resolves(parents, boundaries, x) {
        lemma_enclosing_is_boundary(parents, boundaries, x, parents.len());
    }
}

proof fn lemma_enclosing_is_boundary(
    parents: Seq<(ElementId, ElementId)>,
    boundaries: Seq<ElementId>,
    x: ElementId,
    fuel: nat,
)
    requires
        enclosing_within(parents, boundaries, x, fuel) is Some,
    ensures
        match enclosing_within(parents, boundaries, x, fuel)->0 {
            Some(b) => boundaries.contains(b),
            None => true,
        },
    decreases fuel,
{
    if !boundaries.contains(x) {
        if let Some(p) = parent_in(parents, x) {
            lemma_enclosing_is_boundary(parents, boundaries, p, (fuel - 1) as nat);
        }
    }
}

/// An element that is no boundary lies in the same layer as its parent: the
/// enclosing layer is the innermost boundary on the chain.
pub proof fn law_non_boundary_shares_its_parents_layer(
    parents: Seq<(ElementId, ElementId)>,
    boundaries: Seq<ElementId>,
    x: ElementId,
    p: ElementId,
)
    requires
        chain_resolves(parents, boundaries, x),
        !boundaries.contains(x),
        parent_in(parents, x) == Some(p),
    ensures
        chain_resolves(parents, boundaries, p),
        enclosing_layer(parents, boundaries, x) == enclosing_layer(parents, boundaries, p),
{
    let n = parents.len();
    assert(n > 0);
    lemma_enclosing_fuel(parents, boundaries, p, (n - 1) as nat, n);
}

proof fn lemma_parent_in_is_an_entry(parents: Seq<(ElementId, ElementId)>, x: ElementId)
    ensures
        parent_in(parents, x) matches Some(p) ==> exists|i: int|
            0 <= i < parents.len() && #[trigger] parents[i] == (x, p),
    decreases parents.len(),
{
    if parents.len() > 0 && parents[0].0 != x {
        lemma_parent_in_is_an_entry(parents.drop_first(), x);
        if let Some(p) = parent_in(parents, x) {
            let i = choose|i: int| 0 <= i < parents.drop_first().len() && #[trigger] parents.drop_first()[i] == (x, p);
            assert(parents[i + 1] == (x, p));
        }
    }
}

proof fn lemma_walk_descends(
    parents: Seq<(ElementId, ElementId)>,
    boundaries: Seq<ElementId>,
    x: ElementId,
    fuel: nat,
    rank: spec_fn(ElementId) -> nat,
)
    requires
        forall|i: int| 0 <= i < parents.len() ==> rank(#[trigger] parents[i].1) < rank(parents[i].0),
    ensures
        enclosing_within(parents, boundaries, x, fuel) matches Some(Some(y)) ==> rank(y) <= rank(x),
    decreases fuel,
{
    if !boundaries.contains(x) {
        lemma_parent_in_is_an_entry(parents, x);
        if let Some(p) = parent_in(parents, x) {
            if fuel > 0 {
                let i = choose|i: int| 0 <= i < parents.len() && #[trigger] parents[i] == (x, p);
                assert(rank(parents[i].1) < rank(parents[i].0));
                lemma_walk_descends(parents, boundaries, p, (fuel - 1) as nat, rank);
            }
        }
    }
}

/// In an acyclic tree (some rank decreases from every child to its parent), where the
/// walk up from a layer's parent ends, the parent layer of a layer lies strictly above
/// it, never the layer itself.
pub proof fn law_layer_parent_is_strictly_above(
    parents: Seq<(ElementId, ElementId)>,
    boundaries: Seq<ElementId>,
    layer: ElementId,
    rank: spec_fn(ElementId) -> nat,
)
    requires
        forall|i: int| 0 <= i < parents.len() ==> rank(#[trigger] parents[i].1) < rank(parents[i].0),
        parent_in(parents, layer) matches Some(p) ==> chain_resolves(parents, boundaries, p),
    ensures
        layer_parent(parents, boundaries, layer) matches Some(l) ==> rank(l) < rank(layer) && l
            != layer,
{
    lemma_parent_in_is_an_entry(parents, layer);
    if let Some(p) = parent_in(parents, layer) {
        let i = choose|i: int| 0 <= i < parents.len() && #[trigger] parents[i] == (layer, p);
        assert(rank(parents[i].1) < rank(parents[i].0));
        lemma_walk_descends(parents, boundaries, p, parents.len(), rank);
    }
}

} // verus!
