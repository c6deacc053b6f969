use hayate_core::id::ElementId;
use hayate_core::interaction::{InteractionState, SelectionFacts};
use hayate_core::selection::SelectionPoint;
use hayate_core::selection_copy::BlockFacts;

fn id(raw: u64) -> ElementId {
    ElementId::from_u64(raw)
}

fn block(raw: u64, text: Option<&str>, excluded: bool, path: &[usize]) -> BlockFacts {
    BlockFacts {
        id: id(raw),
        text: text.map(|t| t.to_string()),
        excluded,
        region: None,
        path: path.to_vec(),
    }
}

fn select(s: &mut InteractionState, a: (u64, usize), f: (u64, usize)) {
    let free = SelectionFacts { excluded: false, region: None };
    assert!(s.set_selection_range(
        SelectionPoint::new(id(a.0), a.1),
        SelectionPoint::new(id(f.0), f.1),
        free,
        free,
    ));
}

fn doc() -> Vec<BlockFacts> {
    vec![
        block(1, Some("Hello"), false, &[0]),
        block(2, Some("big"), false, &[1]),
        block(3, Some("world"), false, &[2]),
    ]
}

fn find(blocks: &[BlockFacts], raw: u64) -> BlockFacts {
    let b = blocks.iter().find(|b| b.id == id(raw)).unwrap();
    BlockFacts {
        id: b.id,
        text: b.text.clone(),
        excluded: b.excluded,
        region: b.region,
        path: b.path.clone(),
    }
}

#[test]
fn no_selection_copies_nothing() {
    let s = InteractionState::new(vec![]);
    let blocks = doc();
    let a = find(&blocks, 1);
    assert_eq!(s.selected_document_text(&blocks, &a, &a), None);
}

#[test]
fn a_caret_copies_nothing() {
    let mut s = InteractionState::new(vec![]);
    select(&mut s, (1, 2), (1, 2));
    let blocks = doc();
    let a = find(&blocks, 1);
    assert_eq!(s.selected_document_text(&blocks, &a, &a), None);
}

#[test]
fn one_block_copies_its_range_either_way_round() {
    let mut s = InteractionState::new(vec![]);
    select(&mut s, (1, 4), (1, 1));
    let blocks = doc();
    let a = find(&blocks, 1);
    assert_eq!(s.selected_document_text(&blocks, &a, &a), Some("ell".to_string()));
}

#[test]
fn across_blocks_joins_one_line_per_block() {
    let mut s = InteractionState::new(vec![]);
    select(&mut s, (3, 3), (1, 3));
    let blocks = doc();
    let a = find(&blocks, 3);
    let f = find(&blocks, 1);
    assert_eq!(
        s.selected_document_text(&blocks, &a, &f),
        Some("lo\nbig\nwor".to_string())
    );
}

#[test]
fn excluded_and_empty_slices_are_skipped() {
    let mut s = InteractionState::new(vec![]);
    select(&mut s, (1, 5), (3, 2));
    let blocks = vec![
        block(1, Some("Hello"), false, &[0]),
        block(2, Some("hidden"), true, &[1]),
        block(3, Some("world"), false, &[2]),
    ];
    let a = find(&blocks, 1);
    let f = find(&blocks, 3);
    assert_eq!(s.selected_document_text(&blocks, &a, &f), Some("wo".to_string()));
}

#[test]
fn multibyte_text_is_cut_on_its_byte_offsets() {
    let mut s = InteractionState::new(vec![]);
    select(&mut s, (1, 3), (1, 9));
    let blocks = vec![block(1, Some("日本語です"), false, &[0])];
    let a = find(&blocks, 1);
    assert_eq!(s.selected_document_text(&blocks, &a, &a), Some("本語".to_string()));
}
