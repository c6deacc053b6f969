//! The dirty sets that drive committing a frame.
//!
//! Which change marks what dirty is decided by the element setters; the engine only
//! holds the sets and hands them out. Each set holds an element at most once.
use vstd::prelude::*;
use crate::id::ElementId;
use crate::pseudo_state::contains_element;

verus! {

/// How far a visual invalidation reaches: the element alone, or its whole subtree.
#[derive(Clone, Copy, Debug, PartialEq, Eq, Structural)]
pub enum VisualInvalidationReach {
    SelfOnly,
    Subtree,
}

/// Two marks of one element merge to the wider reach.
pub open spec fn merge_reach_spec(previous: Option<VisualInvalidationReach>, reach: VisualInvalidationReach) -> VisualInvalidationReach {
    if previous == Some(VisualInvalidationReach::Subtree) || reach == VisualInvalidationReach::Subtree {
        VisualInvalidationReach::Subtree
    } else {
        VisualInvalidationReach::SelfOnly
    }
}

/// The dirty state of the element engine.
#[verifier::ext_equal]
pub struct EngineDirty {
    /// Elements whose structure changed.
    pub structure: Set<ElementId>,
    /// Inline formatting roots to re-shape before layout.
    pub shape: Set<ElementId>,
    /// How far the scene is re-lowered from each re-shaped root.
    pub shape_reach: Map<ElementId, VisualInvalidationReach>,
    /// Scene-only visual changes, drained after each render, with their reach.
    pub visual: Map<ElementId, VisualInvalidationReach>,
    /// Elements whose absolute box changed in the latest layout pass.
    pub layout_geometry: Set<ElementId>,
    /// A font was registered since the latest layout pass.
    pub fonts: bool,
    /// Elements whose transform coefficients alone changed.
    pub transform: Set<ElementId>,
}

/// Holds the dirty-tracking sets of the element engine.
pub struct ElementEngine {
    structure_dirty: Vec<ElementId>,
    shape_dirty: Vec<ElementId>,
    shape_lowering_reach: Vec<(ElementId, VisualInvalidationReach)>,
    visual_dirty: Vec<(ElementId, VisualInvalidationReach)>,
    layout_geometry_dirty: Vec<ElementId>,
    fonts_dirty: bool,
    transform_dirty: Vec<ElementId>,
}

/// Each element occurs at most once among the keys.
pub open spec fn keys_unique(s: Seq<(ElementId, VisualInvalidationReach)>) -> bool {
    forall|i: int, j: int| 0 <= i < j < s.len() ==> s[i].0 != s[j].0
}

/// The map that a key-unique list of entries stands for.
pub open spec fn reach_map(s: Seq<(ElementId, VisualInvalidationReach)>) -> Map<ElementId, VisualInvalidationReach> {
    Map::new(
        |k: ElementId| exists|i: int| 0 <= i < s.len() && s[i].0 == k,
        |k: ElementId| s[choose|i: int| 0 <= i < s.len() && s[i].0 == k].1,
    )
}

/// The reach recorded for `id`, if any.
pub open spec fn reach_at(m: Map<ElementId, VisualInvalidationReach>, id: ElementId) -> Option<VisualInvalidationReach> {
    if m.dom().contains(id) {
        Some(m[id])
    } else {
        None
    }
}

proof fn lemma_reach_entry(s: Seq<(ElementId, VisualInvalidationReach)>, j: int)
    requires
        keys_unique(s),
        0 <= j < s.len(),
    ensures
        reach_map(s).dom().contains(s[j].0),
        reach_map(s)[s[j].0] == s[j].1,
{
    let k = s[j].0;
    assert(exists|i: int| 0 <= i < s.len() && s[i].0 == k);
    let c = choose|i: int| 0 <= i < s.len() && s[i].0 == k;
    if c != j {
        if c < j {
            assert(s[c].0 != s[j].0);
        } else {
            assert(s[j].0 != s[c].0);
        }
    }
}

impl View for ElementEngine {
    type V = EngineDirty;

    closed spec fn view(&self) -> EngineDirty {
        EngineDirty {
            structure: self.structure_dirty@.to_set(),
            shape: self.shape_dirty@.to_set(),
            shape_reach: reach_map(self.shape_lowering_reach@),
            visual: reach_map(self.visual_dirty@),
            layout_geometry: self.layout_geometry_dirty@.to_set(),
            fonts: self.fonts_dirty,
            transform: self.transform_dirty@.to_set(),
        }
    }
}

/// Records `reach` for `id`, merged with the reach already recorded for it.
fn merge_reach(v: &mut Vec<(ElementId, VisualInvalidationReach)>, id: ElementId, reach: VisualInvalidationReach)
    requires
        keys_unique(old(v)@),
    ensures
        keys_unique(final(v)@),
        reach_map(final(v)@) == reach_map(old(v)@).insert(
            id,
            merge_reach_spec(reach_at(reach_map(old(v)@), id), reach),
        ),
{
    let ghost s = v@;
    let mut i: usize = 0;
    while i < v.len()
        invariant
            v@ == s,
            s == old(v)@,
            keys_unique(s),
            i <= s.len(),
            forall|k: int| 0 <= k < i ==> s[k].0 != id,
        decreases s.len() - i,
    {
        if v[i].0 == id {
            proof {
                lemma_reach_entry(s, i as int);
            }
            let previous = v[i].1;
            let merged = match (previous, reach) {
                (VisualInvalidationReach::Subtree, _) => VisualInvalidationReach::Subtree,
                (_, VisualInvalidationReach::Subtree) => VisualInvalidationReach::Subtree,
                _ => VisualInvalidationReach::SelfOnly,
            };
            v.set(i, (id, merged));
            proof {
                let t = v@;
                assert(t == s.update(i as int, (id, merged)));
                assert forall|a: int, b: int| 0 <= a < b < t.len() implies t[a].0 != t[b].0 by {
                    assert(s[a].0 != s[b].0);
                }
                assert forall|k: ElementId| #![auto] reach_map(t).dom().contains(k) == reach_map(s).insert(id, merged).dom().contains(k) by {
                    if k == id {
                        assert(t[i as int].0 == id);
                    }
                    if reach_map(s).insert(id, merged).dom().contains(k) && k != id {
                        let w = choose|w: int| 0 <= w < s.len() && s[w].0 == k;
                        assert(t[w].0 == k);
                    }
                    if reach_map(t).dom().contains(k) {
                        let w = choose|w: int| 0 <= w < t.len() && t[w].0 == k;
                        if w != i {
                            assert(s[w].0 == k);
                        }
                    }
                }
                assert forall|k: ElementId| #![auto] reach_map(t).dom().contains(k) implies reach_map(t)[k] == reach_map(s).insert(id, merged)[k] by {
                    let w = choose|w: int| 0 <= w < t.len() && t[w].0 == k;
                    lemma_reach_entry(t, w);
                    if w != i {
                        lemma_reach_entry(s, w);
                    }
                }
                assert(reach_map(t) =~= reach_map(s).insert(id, merged));
                assert(reach_at(reach_map(s), id) == Some(previous));
                assert(merged == merge_reach_spec(Some(previous), reach));
            }
            return;
        }
        i = i + 1;
    }
    v.push((id, reach));
    proof {
        let t = v@;
        assert(t == s.push((id, reach)));
        assert(!reach_map(s).dom().contains(id)) by {
            if reach_map(s).dom().contains(id) {
                let w = choose|w: int| 0 <= w < s.len() && s[w].0 == id;
                assert(s[w].0 != id);
            }
        }
        assert forall|a: int, b: int| 0 <= a < b < t.len() implies t[a].0 != t[b].0 by {
            if b < s.len() {
                assert(s[a].0 != s[b].0);
            } else {
                assert(s[a].0 != id);
            }
        }
        assert forall|k: ElementId| #![auto] reach_map(t).dom().contains(k) == reach_map(s).insert(id, reach).dom().contains(k) by {
            if reach_map(s).insert(id, reach).dom().contains(k) {
                if k == id {
                    assert(t[s.len() as int].0 == k);
                } else {
                    let w = choose|w: int| 0 <= w < s.len() && s[w].0 == k;
                    assert(t[w].0 == k);
                }
            }
            if reach_map(t).dom().contains(k) && k != id {
                let w = choose|w: int| 0 <= w < t.len() && t[w].0 == k;
                assert(w < s.len());
                assert(s[w].0 == k);
            }
        }
        assert forall|k: ElementId| #![auto] reach_map(t).dom().contains(k) implies reach_map(t)[k] == reach_map(s).insert(id, reach)[k] by {
            let w = choose|w: int| 0 <= w < t.len() && t[w].0 == k;
            lemma_reach_entry(t, w);
            if w < s.len() {
                lemma_reach_entry(s, w);
            }
        }
        assert(reach_map(t) =~= reach_map(s).insert(id, reach));
    }
}

proof fn lemma_empty_reach_map()
    ensures
        reach_map(Seq::<(ElementId, VisualInvalidationReach)>::empty()) == Map::<ElementId, VisualInvalidationReach>::empty(),
{
    assert(reach_map(Seq::<(ElementId, VisualInvalidationReach)>::empty()) =~= Map::<ElementId, VisualInvalidationReach>::empty());
}

/// Adds `id` to a duplicate-free list.
fn insert_once(v: &mut Vec<ElementId>, id: ElementId)
    requires
        old(v)@.no_duplicates(),
    ensures
        final(v)@.no_duplicates(),
        final(v)@.to_set() == old(v)@.to_set().insert(id),
{
    if !contains_element(v.as_slice(), id) {
        let ghost prev = v@;
        v.push(id);
        assert(v@.to_set() =~= prev.to_set().insert(id)) by {
            assert forall|y: ElementId| v@.contains(y) implies prev.to_set().insert(id).contains(y) by {
                let w = choose|k: int| 0 <= k < v@.len() && v@[k] == y;
                if w < prev.len() {
                    assert(prev[w] == y);
                }
            }
            assert forall|y: ElementId| prev.to_set().insert(id).contains(y) implies #[trigger] v@.contains(y) by {
                if y == id {
                    assert(v@[prev.len() as int] == id);
                } else {
                    let w = choose|k: int| 0 <= k < prev.len() && prev[k] == y;
                    assert(v@[w] == y);
                }
            }
        }
    } else {
        assert(v@.to_set() =~= v@.to_set().insert(id));
    }
}

/// The dirty state with nothing dirty.
pub open spec fn clean() -> EngineDirty {
    EngineDirty {
        structure: Set::empty(),
        shape: Set::empty(),
        shape_reach: Map::empty(),
        visual: Map::empty(),
        layout_geometry: Set::empty(),
        fonts: false,
        transform: Set::empty(),
    }
}

impl ElementEngine {
    /// Every list holds each element at most once.
    pub closed spec fn wf(&self) -> bool {
        &&& self.structure_dirty@.no_duplicates()
        &&& self.shape_dirty@.no_duplicates()
        &&& keys_unique(self.shape_lowering_reach@)
        &&& keys_unique(self.visual_dirty@)
        &&& self.layout_geometry_dirty@.no_duplicates()
        &&& self.transform_dirty@.no_duplicates()
    }

    /// An engine with nothing dirty.
    pub fn new() -> (r: Self)
        ensures
            r.wf(),
            r@ == clean(),
    {
        let r = ElementEngine {
            structure_dirty: Vec::new(),
            shape_dirty: Vec::new(),
            shape_lowering_reach: Vec::new(),
            visual_dirty: Vec::new(),
            layout_geometry_dirty: Vec::new(),
            fonts_dirty: false,
            transform_dirty: Vec::new(),
        };
        proof {
            lemma_empty_reach_map();
        }
        assert(r.structure_dirty@.to_set() =~= Set::<ElementId>::empty());
        assert(r.shape_dirty@.to_set() =~= Set::<ElementId>::empty());
        assert(r.layout_geometry_dirty@.to_set() =~= Set::<ElementId>::empty());
        assert(r.transform_dirty@.to_set() =~= Set::<ElementId>::empty());
        assert(r@ =~= clean());
        r
    }

    /// Marks `id` as having changed its transform coefficients only.
    pub fn mark_transform_dirty(&mut self, id: ElementId)
        requires
            old(self).wf(),
        ensures
            final(self).wf(),
            final(self)@ == (EngineDirty { transform: old(self)@.transform.insert(id), ..old(self)@ }),
    {
        insert_once(&mut self.transform_dirty, id);
        assert(self@ =~= EngineDirty { transform: old(self)@.transform.insert(id), ..old(self)@ });
    }

    /// Hands out the transform-dirty elements, each once, and clears the set.
    pub fn drain_transform_dirty(&mut self) -> (r: Vec<ElementId>)
        requires
            old(self).wf(),
        ensures
            final(self).wf(),
            r@.no_duplicates(),
            r@.to_set() == old(self)@.transform,
            final(self)@ == (EngineDirty { transform: Set::empty(), ..old(self)@ }),
    {
        let mut out: Vec<ElementId> = Vec::new();
        std::mem::swap(&mut out, &mut self.transform_dirty);
        assert(self.transform_dirty@.to_set() =~= Set::<ElementId>::empty());
        assert(self@ =~= EngineDirty { transform: Set::empty(), ..old(self)@ });
        out
    }

    /// Marks `id` as having changed its structure.
    pub fn mark_structure_dirty(&mut self, id: ElementId)
        requires
            old(self).wf(),
        ensures
            final(self).wf(),
            final(self)@ == (EngineDirty { structure: old(self)@.structure.insert(id), ..old(self)@ }),
    {
        insert_once(&mut self.structure_dirty, id);
        assert(self@ =~= EngineDirty { structure: old(self)@.structure.insert(id), ..old(self)@ });
    }

    /// Marks the inline formatting root `id` for re-shaping before layout, and records
    /// how far the scene is re-lowered from it (merged with an earlier mark: the wider
    /// reach wins).
    pub fn mark_shape_dirty(&mut self, id: ElementId, reach: VisualInvalidationReach)
        requires
            old(self).wf(),
        ensures
            final(self).wf(),
            final(self)@ == (EngineDirty {
                shape: old(self)@.shape.insert(id),
                shape_reach: old(self)@.shape_reach.insert(
                    id,
                    merge_reach_spec(reach_at(old(self)@.shape_reach, id), reach),
                ),
                ..old(self)@
            }),
    {
        insert_once(&mut self.shape_dirty, id);
        merge_reach(&mut self.shape_lowering_reach, id, reach);
        assert(self@ =~= EngineDirty {
            shape: old(self)@.shape.insert(id),
            shape_reach: old(self)@.shape_reach.insert(
                id,
                merge_reach_spec(reach_at(old(self)@.shape_reach, id), reach),
            ),
            ..old(self)@
        });
    }

    /// Marks a scene-only visual change of `id` with its reach (merged with an earlier
    /// mark: the wider reach wins).
    pub fn mark_visual_dirty(&mut self, id: ElementId, reach: VisualInvalidationReach)
        requires
            old(self).wf(),
        ensures
            final(self).wf(),
            final(self)@ == (EngineDirty {
                visual: old(self)@.visual.insert(
                    id,
                    merge_reach_spec(reach_at(old(self)@.visual, id), reach),
                ),
                ..old(self)@
            }),
    {
        merge_reach(&mut self.visual_dirty, id, reach);
        assert(self@ =~= EngineDirty {
            visual: old(self)@.visual.insert(
                id,
                merge_reach_spec(reach_at(old(self)@.visual, id), reach),
            ),
            ..old(self)@
        });
    }

    /// Records that a font was registered, so that the next layout re-shapes all text.
    pub fn mark_fonts_dirty(&mut self)
        ensures
            final(self)@ == (EngineDirty { fonts: true, ..old(self)@ }),
            final(self).wf() == old(self).wf(),
    {
        self.fonts_dirty = true;
        assert(self@ =~= EngineDirty { fonts: true, ..old(self)@ });
    }

    /// Hands out the scene-only visual changes with their reach, each element once,
    /// and clears them.
    pub fn drain_visual_dirty(&mut self) -> (r: Vec<(ElementId, VisualInvalidationReach)>)
        requires
            old(self).wf(),
        ensures
            final(self).wf(),
            keys_unique(r@),
            reach_map(r@) == old(self)@.visual,
            final(self)@ == (EngineDirty { visual: Map::empty(), ..old(self)@ }),
    {
        let mut out: Vec<(ElementId, VisualInvalidationReach)> = Vec::new();
        std::mem::swap(&mut out, &mut self.visual_dirty);
        proof {
            lemma_empty_reach_map();
        }
        assert(self@ =~= EngineDirty { visual: Map::empty(), ..old(self)@ });
        out
    }

    /// Hands out the re-lowering reach of the re-shaped roots, each root once, and
    /// clears it.
    pub fn drain_shape_lowering_reach(&mut self) -> (r: Vec<(ElementId, VisualInvalidationReach)>)
        requires
            old(self).wf(),
        ensures
            final(self).wf(),
            keys_unique(r@),
            reach_map(r@) == old(self)@.shape_reach,
            final(self)@ == (EngineDirty { shape_reach: Map::empty(), ..old(self)@ }),
    {
        let mut out: Vec<(ElementId, VisualInvalidationReach)> = Vec::new();
        std::mem::swap(&mut out, &mut self.shape_lowering_reach);
        proof {
            lemma_empty_reach_map();
        }
        assert(self@ =~= EngineDirty { shape_reach: Map::empty(), ..old(self)@ });
        out
    }

    /// Hands out the elements whose box changed in the latest layout, each once, and
    /// clears the set.
    pub fn drain_layout_geometry_dirty(&mut self) -> (r: Vec<ElementId>)
        requires
            old(self).wf(),
        ensures
            final(self).wf(),
            r@.no_duplicates(),
            r@.to_set() == old(self)@.layout_geometry,
            final(self)@ == (EngineDirty { layout_geometry: Set::empty(), ..old(self)@ }),
    {
        let mut out: Vec<ElementId> = Vec::new();
        std::mem::swap(&mut out, &mut self.layout_geometry_dirty);
        assert(self.layout_geometry_dirty@.to_set() =~= Set::<ElementId>::empty());
        assert(self@ =~= EngineDirty { layout_geometry: Set::empty(), ..old(self)@ });
        out
    }
}

/// What a layout pass invalidates before it computes: the text layouts to drop, and
/// the elements whose content layout is dropped and whose layout node is measured again.
pub struct TextInvalidation {
    pub drop_text_layout: Vec<ElementId>,
    pub remeasure: Vec<ElementId>,
}

/// Before a layout pass: every root marked for re-shaping drops its text layout; after
/// a font registration every text-like element also drops its text and content layouts
/// and is measured again, so that the new font data is shaped in this pass.
pub fn text_invalidation(shape_dirty: &[ElementId], fonts_dirty: bool, text_like: &[ElementId]) -> (r: TextInvalidation)
    ensures
        r.drop_text_layout@ == shape_dirty@ + if fonts_dirty {
            text_like@
        } else {
            Seq::empty()
        },
        r.remeasure@ == if fonts_dirty {
            text_like@
        } else {
            Seq::empty()
        },
{
    let mut drop_text_layout: Vec<ElementId> = Vec::new();
    let mut i: usize = 0;
    while i < shape_dirty.len()
        invariant
            i <= shape_dirty@.len(),
            drop_text_layout@ == shape_dirty@.take(i as int),
        decreases shape_dirty@.len() - i,
    {
        drop_text_layout.push(shape_dirty[i]);
        i = i + 1;
        assert(drop_text_layout@ =~= shape_dirty@.take(i as int));
    }
    assert(shape_dirty@.take(shape_dirty@.len() as int) =~= shape_dirty@);
    let mut remeasure: Vec<ElementId> = Vec::new();
    if fonts_dirty {
        let mut j: usize = 0;
        while j < text_like.len()
            invariant
                j <= text_like@.len(),
                drop_text_layout@ == shape_dirty@ + text_like@.take(j as int),
                remeasure@ == text_like@.take(j as int),
            decreases text_like@.len() - j,
        {
            drop_text_layout.push(text_like[j]);
            remeasure.push(text_like[j]);
            j = j + 1;
            assert(drop_text_layout@ =~= shape_dirty@ + text_like@.take(j as int));
            assert(remeasure@ =~= text_like@.take(j as int));
        }
        assert(text_like@.take(text_like@.len() as int) =~= text_like@);
    } else {
        assert(drop_text_layout@ =~= shape_dirty@ + Seq::<ElementId>::empty());
    }
    TextInvalidation { drop_text_layout, remeasure }
}

/// Marking twice merges: the recorded reach of an element is the wider of its marks,
/// and a mark never narrows what an earlier one recorded.
pub proof fn law_marks_keep_the_wider_reach(
    previous: Option<VisualInvalidationReach>,
    a: VisualInvalidationReach,
    b: VisualInvalidationReach,
)
    ensures
        merge_reach_spec(Some(merge_reach_spec(previous, a)), b) == merge_reach_spec(
            Some(merge_reach_spec(previous, b)),
            a,
        ),
        previous == Some(VisualInvalidationReach::Subtree) ==> merge_reach_spec(previous, a)
            == VisualInvalidationReach::Subtree,
        merge_reach_spec(None, a) == a,
        merge_reach_spec(Some(a), a) == a,
{
}

/// An engine with nothing dirty.
impl Default for ElementEngine {
    fn default() -> (r: Self)
        ensures
            r.wf(),
            r@ == clean(),
    {
        Self::new()
    }
}

} // verus!
