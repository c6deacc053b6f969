use hayate_core::paint_order::{sort_by_z_index, PaintOrder};
use hayate_core::ElementId;

fn ids(raws: &[u64]) -> Vec<ElementId> {
    raws.iter().map(|&r| ElementId::from_u64(r)).collect()
}

#[test]
fn sort_by_z_index_is_stable() {
    let children = ids(&[1, 2, 3, 4, 5]);
    let z = [0, -1, 2, 0, -1];
    assert_eq!(sort_by_z_index(&children, &z), ids(&[2, 5, 1, 4, 3]));
    assert_eq!(sort_by_z_index(&children, &[0; 5]), children);
    assert!(sort_by_z_index(&[], &[]).is_empty());
}

#[test]
fn order_is_cached_until_invalidated() {
    let parent = ElementId::from_u64(10);
    let mut order = PaintOrder::new();
    assert!(order.with_order(parent, &ids(&[1, 2]), &[0, 0]).is_empty());
    order.register(parent);
    assert_eq!(order.with_order(parent, &ids(&[1, 2]), &[1, 0]), ids(&[2, 1]));
    assert_eq!(order.rebuild_count(parent), 1);
    // Clean: the cached order is returned whatever the arguments.
    assert_eq!(order.with_order(parent, &ids(&[3]), &[0]), ids(&[2, 1]));
    assert_eq!(order.rebuild_count(parent), 1);
    order.register(parent);
    assert_eq!(order.with_order(parent, &ids(&[3]), &[0]), ids(&[2, 1]));
    order.invalidate(parent);
    assert_eq!(order.with_order(parent, &ids(&[3]), &[0]), ids(&[3]));
    assert_eq!(order.rebuild_count(parent), 2);
    order.remove(parent);
    assert_eq!(order.rebuild_count(parent), 0);
    assert!(order.with_order(parent, &ids(&[1]), &[0]).is_empty());
}
