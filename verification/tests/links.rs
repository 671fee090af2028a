use projector::{Card, CardStore, Rect, Segment};

fn rect(n: u32) -> Rect {
    Rect { min_x: n, min_y: n + 1, max_x: n + 2, max_y: n + 3 }
}

fn store_with(ids: &[isize]) -> CardStore {
    let mut store = CardStore::new();
    for id in ids {
        let mut c = Card::new(*id);
        c.rect = rect(*id as u32 * 10);
        assert_eq!(store.insert(c), Ok(()));
    }
    store
}

#[test]
fn no_cards_no_segments() {
    assert!(CardStore::new().connectors().is_empty());
}

#[test]
fn roots_draw_nothing() {
    let store = store_with(&[1, 2, 3]);
    assert!(store.connectors().is_empty());
}

#[test]
fn child_draws_to_parent() {
    let mut store = store_with(&[1, 2, 3]);
    store.link(3, 1);
    assert_eq!(
        store.connectors(),
        vec![Segment { child: 3, parent: 1, from: rect(30), to: rect(10) }]
    );
}

#[test]
fn segments_come_in_card_order() {
    let mut store = store_with(&[1, 2, 3]);
    store.link(1, 3);
    store.link(3, 2);
    assert_eq!(
        store.connectors(),
        vec![
            Segment { child: 1, parent: 3, from: rect(10), to: rect(30) },
            Segment { child: 3, parent: 2, from: rect(30), to: rect(20) },
        ]
    );
}

#[test]
fn dangling_parent_draws_nothing() {
    let mut store = store_with(&[1, 2]);
    let mut orphan = Card::new(3);
    orphan.parent = 99;
    store.insert(orphan).unwrap();
    store.link(2, 1);
    let lines = store.connectors();
    assert_eq!(lines.len(), 1);
    assert!(lines.iter().all(|s| s.child != 3));
}

#[test]
fn self_parent_draws_nothing_whatever_else_is_there() {
    let mut store = store_with(&[1, 2, 3]);
    store.link(2, 1);
    store.link(3, 1);
    let lines = store.connectors();
    assert_eq!(lines.len(), 2);
    assert!(lines.iter().all(|s| s.child != 1));
    assert!(lines.iter().all(|s| s.child != s.parent));
}

#[test]
fn segment_follows_recorded_rect() {
    let mut store = store_with(&[1, 2]);
    store.link(2, 1);
    store.set_rect(1, rect(500));
    assert_eq!(
        store.connectors(),
        vec![Segment { child: 2, parent: 1, from: rect(20), to: rect(500) }]
    );
}
