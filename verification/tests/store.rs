use projector::geometry::{
    make_default_rect, DEFAULT_HEIGHT_BITS, DEFAULT_WIDTH_BITS, MIN_HEIGHT_BITS, MIN_WIDTH_BITS,
};
use projector::{Card, CardStore, Rect, StoreError};

fn store_with(ids: &[isize]) -> CardStore {
    let mut store = CardStore::new();
    for id in ids {
        assert_eq!(store.insert(Card::new(*id)), Ok(()));
    }
    store
}

fn ids_of(store: &CardStore) -> Vec<isize> {
    store.all().iter().map(|c| c.id).collect()
}

#[test]
fn default_rect_spans_origin_to_200_by_130() {
    let r = make_default_rect();
    assert_eq!(f32::from_bits(r.min_x), 0.0);
    assert_eq!(f32::from_bits(r.min_y), 0.0);
    assert_eq!(f32::from_bits(r.max_x), 200.0);
    assert_eq!(f32::from_bits(r.max_y), 130.0);
    assert_eq!(DEFAULT_WIDTH_BITS, 200.0f32.to_bits());
    assert_eq!(DEFAULT_HEIGHT_BITS, 130.0f32.to_bits());
}

#[test]
fn least_window_size_is_155_by_110() {
    assert_eq!(f32::from_bits(MIN_WIDTH_BITS), 155.0);
    assert_eq!(f32::from_bits(MIN_HEIGHT_BITS), 110.0);
}

#[test]
fn new_card_is_a_root_with_empty_texts() {
    let c = Card::new(7);
    assert_eq!(c.id, 7);
    assert_eq!(c.parent, 7);
    assert!(c.is_root());
    assert_eq!(c.title, "");
    assert_eq!(c.description, "");
    assert_eq!(c.rect, make_default_rect());
    assert!(!c.collapsed);
    assert!(!c.editing);
}

#[test]
fn card_with_other_parent_is_no_root() {
    let mut c = Card::new(7);
    c.parent = 3;
    assert!(!c.is_root());
}

#[test]
fn clone_keeps_every_field() {
    let mut c = Card::new(4);
    c.title = String::from("t");
    c.description = String::from("d");
    c.parent = 9;
    c.collapsed = true;
    c.editing = true;
    c.rect = Rect { min_x: 1, min_y: 2, max_x: 3, max_y: 4 };
    assert_eq!(c.clone(), c);
}

#[test]
fn empty_store() {
    let store = CardStore::new();
    assert_eq!(store.len(), 0);
    assert!(store.is_empty());
    assert!(store.all().is_empty());
    assert_eq!(store.find(0), None);
    assert_eq!(store.position(0), None);
    assert!(!store.contains(0));
}

#[test]
fn insert_appends_in_order() {
    let store = store_with(&[5, -2, 9]);
    assert_eq!(store.len(), 3);
    assert!(!store.is_empty());
    assert_eq!(ids_of(&store), vec![5, -2, 9]);
}

#[test]
fn insert_refuses_taken_id_and_changes_nothing() {
    let mut store = store_with(&[5, -2, 9]);
    let mut dup = Card::new(-2);
    dup.title = String::from("second");
    assert_eq!(store.insert(dup), Err(StoreError::DuplicateId(-2)));
    assert_eq!(ids_of(&store), vec![5, -2, 9]);
    assert_eq!(store.find(-2).unwrap().title, "");
}

#[test]
fn find_and_position_by_id() {
    let store = store_with(&[5, -2, 9]);
    assert_eq!(store.position(5), Some(0));
    assert_eq!(store.position(-2), Some(1));
    assert_eq!(store.position(9), Some(2));
    assert_eq!(store.position(1), None);
    assert_eq!(store.find(9).unwrap().id, 9);
    assert_eq!(store.find(1), None);
    assert!(store.contains(5));
    assert!(!store.contains(6));
}

#[test]
fn remove_takes_one_card_and_leaves_parents_alone() {
    let mut store = store_with(&[1, 2, 3]);
    assert!(store.link(2, 1));
    let gone = store.remove(1).unwrap();
    assert_eq!(gone.id, 1);
    assert_eq!(ids_of(&store), vec![2, 3]);
    assert_eq!(store.find(2).unwrap().parent, 1);
}

#[test]
fn remove_of_missing_id_changes_nothing() {
    let mut store = store_with(&[1, 2, 3]);
    assert_eq!(store.remove(4), None);
    assert_eq!(ids_of(&store), vec![1, 2, 3]);
}

#[test]
fn sort_by_id_orders_ascending() {
    let mut store = store_with(&[5, -2, 9, 0, 3]);
    store.sort_by_id();
    assert_eq!(ids_of(&store), vec![-2, 0, 3, 5, 9]);
}

#[test]
fn sort_by_id_keeps_the_cards_whole() {
    let mut store = CardStore::new();
    for (id, title) in [(3, "c"), (1, "a"), (2, "b")] {
        let mut c = Card::new(id);
        c.title = String::from(title);
        store.insert(c).unwrap();
    }
    store.sort_by_id();
    let titles: Vec<&str> = store.all().iter().map(|c| c.title.as_str()).collect();
    assert_eq!(titles, vec!["a", "b", "c"]);
    assert_eq!(ids_of(&store), vec![1, 2, 3]);
}

#[test]
fn sort_cards_is_stable_for_equal_ids() {
    let mut a = Card::new(1);
    a.title = String::from("first");
    let mut b = Card::new(1);
    b.title = String::from("second");
    let c = Card::new(0);
    let sorted = projector::order::sort_cards(vec![a, b, c]);
    let seen: Vec<(isize, &str)> = sorted.iter().map(|c| (c.id, c.title.as_str())).collect();
    assert_eq!(seen, vec![(0, ""), (1, "first"), (1, "second")]);
}
