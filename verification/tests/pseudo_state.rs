use hayate_core::pseudo_state::{ancestor_chain, diff_hover_sets, hover_set_for_hit, InteractionSnapshot};
use hayate_core::ElementId;

fn id(raw: u64) -> ElementId {
    ElementId::from_u64(raw)
}

fn raw_sorted(v: &[ElementId]) -> Vec<u64> {
    let mut r: Vec<u64> = v.iter().map(|e| e.to_u64()).collect();
    r.sort_unstable();
    r
}

#[test]
fn snapshot_flags_answer_per_element() {
    let snap = InteractionSnapshot {
        hovered: vec![id(1), id(2)],
        active: Some(id(2)),
        focused: Some(id(3)),
    };
    assert!(snap.is_hovered(id(1)));
    assert!(!snap.is_hovered(id(3)));
    assert!(snap.is_active(id(2)));
    assert!(!snap.is_active(id(1)));
    assert!(snap.is_focused(id(3)));
    assert!(!snap.is_focused(id(2)));
}

#[test]
fn hover_diff_splits_entered_and_left() {
    let prev = vec![id(1), id(2), id(3)];
    let next = vec![id(1), id(4), id(4), id(5)];
    let (entered, left) = diff_hover_sets(&prev, &next);
    assert_eq!(raw_sorted(&entered), vec![4, 5]);
    assert_eq!(raw_sorted(&left), vec![2, 3]);
    let (none_in, none_out) = diff_hover_sets(&prev, &prev);
    assert!(none_in.is_empty() && none_out.is_empty());
}

#[test]
fn ancestor_chain_climbs_to_the_root() {
    let elements = vec![(id(3), Some(id(2))), (id(2), Some(id(1))), (id(1), None)];
    assert_eq!(ancestor_chain(&elements, id(3)), vec![id(3), id(2), id(1)]);
    assert_eq!(ancestor_chain(&elements, id(9)), Vec::<ElementId>::new());
    assert_eq!(raw_sorted(&hover_set_for_hit(&elements, id(2))), vec![1, 2]);
}
