use hayate_core::document_runtime::{DocumentEventKind, DocumentRuntime, ListenerId};
use hayate_core::ElementId;

fn id(raw: u64) -> ElementId {
    ElementId::from_u64(raw)
}

#[test]
fn bubble_dispatches_to_ancestors_in_order() {
    let mut rt: DocumentRuntime<(f32, f32)> = DocumentRuntime::new();
    let root = id(10);
    let mid = id(11);
    let leaf = id(12);

    let l_root = rt.register_listener(root, DocumentEventKind::Click);
    let l_mid = rt.register_listener(mid, DocumentEventKind::Click);
    let l_leaf = rt.register_listener(leaf, DocumentEventKind::Click);

    rt.dispatch_to_path(&[leaf, mid, root], DocumentEventKind::Click, (1.0, 2.0));

    let deliveries = rt.poll_deliveries();
    assert_eq!(deliveries.len(), 3);
    assert_eq!(deliveries[0].listener_id, l_leaf);
    assert_eq!(deliveries[1].listener_id, l_mid);
    assert_eq!(deliveries[2].listener_id, l_root);
}

#[test]
fn non_bubble_stops_at_target() {
    let mut rt: DocumentRuntime<u64> = DocumentRuntime::new();
    let root = id(20);
    let leaf = id(21);

    let l_root = rt.register_listener(root, DocumentEventKind::Focus);
    let l_leaf = rt.register_listener(leaf, DocumentEventKind::Focus);

    rt.dispatch_to_path(&[leaf], DocumentEventKind::Focus, 21);

    let deliveries = rt.poll_deliveries();
    assert_eq!(deliveries.len(), 1);
    assert_eq!(deliveries[0].listener_id, l_leaf);
    assert_ne!(deliveries[0].listener_id, l_root);
}

#[test]
fn multiple_listeners_on_same_element() {
    let mut rt: DocumentRuntime<(f32, f32)> = DocumentRuntime::new();
    let btn = id(30);

    let l1 = rt.register_listener(btn, DocumentEventKind::Click);
    let l2 = rt.register_listener(btn, DocumentEventKind::Click);

    rt.dispatch_to_path(&[btn], DocumentEventKind::Click, (0.0, 0.0));

    let ids: Vec<ListenerId> = rt
        .poll_deliveries()
        .into_iter()
        .map(|d| d.listener_id)
        .collect();
    assert_eq!(ids, vec![l1, l2]);
}

#[test]
fn deliveries_carry_the_event_and_the_queue_empties() {
    let mut rt: DocumentRuntime<String> = DocumentRuntime::new();
    let a = id(1);
    let l = rt.register_listener(a, DocumentEventKind::TextInput);
    rt.dispatch_to_path(&[a], DocumentEventKind::TextInput, "hi".to_string());
    rt.dispatch_to_path(&[a], DocumentEventKind::TextInput, "there".to_string());
    let d = rt.poll_deliveries();
    assert_eq!(d.len(), 2);
    assert_eq!(d[0].listener_id, l);
    assert_eq!(d[0].event, "hi");
    assert_eq!(d[1].event, "there");
    assert!(rt.poll_deliveries().is_empty());
}

#[test]
fn dispatch_skips_other_kinds_and_elements_off_the_path() {
    let mut rt: DocumentRuntime<u8> = DocumentRuntime::new();
    let a = id(1);
    let b = id(2);
    let c = id(3);
    let _blur = rt.register_listener(a, DocumentEventKind::Blur);
    let click_a = rt.register_listener(a, DocumentEventKind::Click);
    let _click_c = rt.register_listener(c, DocumentEventKind::Click);
    let click_b = rt.register_listener(b, DocumentEventKind::Click);
    rt.dispatch_to_path(&[b, a], DocumentEventKind::Click, 7);
    let ids: Vec<ListenerId> = rt.poll_deliveries().into_iter().map(|d| d.listener_id).collect();
    assert_eq!(ids, vec![click_b, click_a]);
}

#[test]
fn unregister_reports_whether_the_listener_was_there() {
    let mut rt: DocumentRuntime<u8> = DocumentRuntime::new();
    let a = id(5);
    let l1 = rt.register_listener(a, DocumentEventKind::Click);
    let l2 = rt.register_listener(a, DocumentEventKind::Click);
    assert!(rt.unregister_listener(l1));
    assert!(!rt.unregister_listener(l1));
    rt.dispatch_to_path(&[a], DocumentEventKind::Click, 0);
    let ids: Vec<ListenerId> = rt.poll_deliveries().into_iter().map(|d| d.listener_id).collect();
    assert_eq!(ids, vec![l2]);
}

#[test]
fn a_reused_slot_gets_a_new_handle() {
    let mut rt: DocumentRuntime<u8> = DocumentRuntime::new();
    let a = id(5);
    let l1 = rt.register_listener(a, DocumentEventKind::Click);
    assert!(rt.unregister_listener(l1));
    let l2 = rt.register_listener(a, DocumentEventKind::Click);
    assert_ne!(l1, l2);
    assert!(!rt.unregister_listener(l1));
    assert!(rt.unregister_listener(l2));
}

#[test]
fn removing_an_element_drops_all_its_listeners() {
    let mut rt: DocumentRuntime<u8> = DocumentRuntime::new();
    let a = id(1);
    let b = id(2);
    let la1 = rt.register_listener(a, DocumentEventKind::Click);
    let la2 = rt.register_listener(a, DocumentEventKind::Focus);
    let lb = rt.register_listener(b, DocumentEventKind::Click);
    rt.remove_element_listeners(a);
    assert!(!rt.unregister_listener(la1));
    assert!(!rt.unregister_listener(la2));
    rt.dispatch_to_path(&[a, b], DocumentEventKind::Click, 0);
    let ids: Vec<ListenerId> = rt.poll_deliveries().into_iter().map(|d| d.listener_id).collect();
    assert_eq!(ids, vec![lb]);
}

#[test]
fn listener_handle_round_trips_through_u64() {
    let mut rt: DocumentRuntime<u8> = DocumentRuntime::new();
    let l = rt.register_listener(id(9), DocumentEventKind::KeyDown);
    let raw = l.to_u64();
    assert_eq!(ListenerId::from_u64(raw), l);
    assert!(rt.unregister_listener(ListenerId::from_u64(raw)));
}

#[test]
fn from_u64_splits_index_and_makes_the_version_odd() {
    let a = ListenerId::from_u64((4u64 << 32) | 7);
    assert_eq!(a.to_u64(), (5u64 << 32) | 7);
    let b = ListenerId::from_u64((3u64 << 32) | 0xffff_ffff);
    assert_eq!(b.to_u64(), (3u64 << 32) | 0xffff_ffff);
    assert_eq!(ListenerId::from_u64(0).to_u64(), 1u64 << 32);
}
