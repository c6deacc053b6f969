use hayate_core::engine::{text_invalidation, ElementEngine, VisualInvalidationReach};
use hayate_core::ElementId;

fn raw_sorted(v: &[ElementId]) -> Vec<u64> {
    let mut r: Vec<u64> = v.iter().map(|e| e.to_u64()).collect();
    r.sort_unstable();
    r
}

#[test]
fn transform_dirty_is_a_set_drained_once() {
    let mut engine = ElementEngine::new();
    engine.mark_transform_dirty(ElementId::from_u64(4));
    engine.mark_transform_dirty(ElementId::from_u64(2));
    engine.mark_transform_dirty(ElementId::from_u64(4));
    assert_eq!(raw_sorted(&engine.drain_transform_dirty()), vec![2, 4]);
    assert!(engine.drain_transform_dirty().is_empty());
}

#[test]
fn fresh_engine_has_no_layout_geometry_dirt() {
    let mut engine = ElementEngine::default();
    engine.mark_structure_dirty(ElementId::from_u64(1));
    engine.mark_fonts_dirty();
    assert!(engine.drain_layout_geometry_dirty().is_empty());
}

fn reach_sorted(v: &[(ElementId, VisualInvalidationReach)]) -> Vec<(u64, VisualInvalidationReach)> {
    let mut r: Vec<(u64, VisualInvalidationReach)> = v.iter().map(|(e, r)| (e.to_u64(), *r)).collect();
    r.sort_unstable_by_key(|(id, _)| *id);
    r
}

#[test]
fn visual_marks_merge_to_the_wider_reach_and_drain_once() {
    let mut engine = ElementEngine::new();
    engine.mark_visual_dirty(ElementId::from_u64(3), VisualInvalidationReach::SelfOnly);
    engine.mark_visual_dirty(ElementId::from_u64(1), VisualInvalidationReach::Subtree);
    engine.mark_visual_dirty(ElementId::from_u64(3), VisualInvalidationReach::Subtree);
    engine.mark_visual_dirty(ElementId::from_u64(1), VisualInvalidationReach::SelfOnly);
    engine.mark_visual_dirty(ElementId::from_u64(5), VisualInvalidationReach::SelfOnly);
    assert_eq!(
        reach_sorted(&engine.drain_visual_dirty()),
        vec![
            (1, VisualInvalidationReach::Subtree),
            (3, VisualInvalidationReach::Subtree),
            (5, VisualInvalidationReach::SelfOnly),
        ]
    );
    assert!(engine.drain_visual_dirty().is_empty());
}

#[test]
fn shape_marks_record_their_lowering_reach() {
    let mut engine = ElementEngine::new();
    engine.mark_shape_dirty(ElementId::from_u64(2), VisualInvalidationReach::SelfOnly);
    engine.mark_shape_dirty(ElementId::from_u64(2), VisualInvalidationReach::SelfOnly);
    assert_eq!(
        reach_sorted(&engine.drain_shape_lowering_reach()),
        vec![(2, VisualInvalidationReach::SelfOnly)]
    );
    assert!(engine.drain_shape_lowering_reach().is_empty());
    assert!(engine.drain_visual_dirty().is_empty());
}

fn ids(v: &[u64]) -> Vec<ElementId> {
    v.iter().map(|&n| ElementId::from_u64(n)).collect()
}

#[test]
fn a_font_registration_invalidates_every_text_like_element() {
    let plain = text_invalidation(&ids(&[4]), false, &ids(&[1, 2]));
    assert_eq!(plain.drop_text_layout, ids(&[4]));
    assert!(plain.remeasure.is_empty());
    let fonts = text_invalidation(&ids(&[4]), true, &ids(&[1, 2]));
    assert_eq!(fonts.drop_text_layout, ids(&[4, 1, 2]));
    assert_eq!(fonts.remeasure, ids(&[1, 2]));
}
