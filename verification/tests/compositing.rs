use hayate_core::compositing::{
    build_layer_tree, derive_layer_dirty, nearest_enclosing_layer, CompositingFacts,
    CompositingTrigger,
};
use hayate_core::ElementId;

fn id(raw: u64) -> ElementId {
    ElementId::from_u64(raw)
}

fn parents(pairs: &[(u64, u64)]) -> Vec<(ElementId, ElementId)> {
    pairs.iter().map(|&(c, p)| (id(c), id(p))).collect()
}

fn ids(raws: &[u64]) -> Vec<ElementId> {
    raws.iter().map(|&r| id(r)).collect()
}

fn sorted_raw(v: &[ElementId]) -> Vec<u64> {
    let mut raws: Vec<u64> = v.iter().map(|e| e.to_u64()).collect();
    raws.sort_unstable();
    raws
}

#[test]
fn default_facts_form_no_layer() {
    let facts = CompositingFacts::default();
    assert!(facts.triggers().is_empty());
    assert!(!facts.forms_layer());
}

#[test]
fn scroll_container_alone_forms_a_layer() {
    let facts = CompositingFacts {
        is_scroll_container: true,
        ..CompositingFacts::default()
    };
    assert_eq!(facts.triggers(), vec![CompositingTrigger::ScrollContainer]);
    assert!(facts.forms_layer());
}

#[test]
fn triggers_are_reported_in_initial_set_order() {
    let facts = CompositingFacts {
        has_active_transition: true,
        has_transform: true,
        is_scroll_container: false,
    };
    assert_eq!(
        facts.triggers(),
        vec![CompositingTrigger::Transition, CompositingTrigger::Transform],
    );
}

#[test]
fn all_triggers_follow_the_initial_set() {
    let facts = CompositingFacts {
        has_active_transition: true,
        has_transform: true,
        is_scroll_container: true,
    };
    assert_eq!(facts.triggers(), CompositingTrigger::INITIAL_SET.to_vec());
    let transform_only = CompositingFacts {
        has_transform: true,
        ..CompositingFacts::default()
    };
    assert!(transform_only.forms_layer());
    assert_eq!(transform_only.triggers(), vec![CompositingTrigger::Transform]);
}

#[test]
fn nearest_layer_is_the_innermost_enclosing_boundary() {
    let parent_of = parents(&[(2, 1), (3, 2), (4, 3), (5, 4)]);
    let boundaries = ids(&[2, 4]);
    assert_eq!(nearest_enclosing_layer(id(5), &boundaries, &parent_of), Some(id(4)));
    assert_eq!(nearest_enclosing_layer(id(3), &boundaries, &parent_of), Some(id(2)));
}

#[test]
fn boundary_element_is_its_own_layer() {
    let parent_of = parents(&[(2, 1)]);
    let boundaries = ids(&[2]);
    assert_eq!(nearest_enclosing_layer(id(2), &boundaries, &parent_of), Some(id(2)));
}

#[test]
fn element_outside_any_layer_has_no_enclosing_layer() {
    let parent_of = parents(&[(2, 1)]);
    let boundaries = ids(&[]);
    assert_eq!(nearest_enclosing_layer(id(2), &boundaries, &parent_of), None);
}

#[test]
fn layer_dirty_routes_each_dirty_to_its_nearest_layer_and_dedups() {
    let parent_of = parents(&[(2, 1), (3, 2), (4, 2), (5, 1), (6, 5)]);
    let boundaries = ids(&[2, 5]);
    let dirty = derive_layer_dirty(&ids(&[3, 4, 6, 1]), &boundaries, &parent_of);
    assert_eq!(sorted_raw(&dirty), vec![2, 5]);
    assert_eq!(dirty.len(), 2);
}

#[test]
fn layer_tree_parent_is_nearest_ancestor_boundary() {
    let parent_of = parents(&[(2, 1), (3, 2), (4, 3)]);
    let boundaries = ids(&[2, 4]);
    let tree = build_layer_tree(&ids(&[2, 4]), &boundaries, &parent_of);
    assert_eq!(tree.layers, vec![id(2), id(4)]);
    assert_eq!(tree.parent_of(id(2)), Some(None));
    assert_eq!(tree.parent_of(id(4)), Some(Some(id(2))));
    assert_eq!(tree.parent_of(id(3)), None);
}
