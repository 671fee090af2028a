use projector::ident::FIRST_ID;
use projector::{Card, CardStore, DeletePolicy};

fn store_with(ids: &[isize]) -> CardStore {
    let mut store = CardStore::new();
    for id in ids {
        assert_eq!(store.insert(Card::new(*id)), Ok(()));
    }
    store
}

fn ids_of(store: &CardStore) -> Vec<isize> {
    store.all().iter().map(|c| c.id).collect()
}

#[test]
fn first_card_gets_first_id() {
    let mut store = CardStore::new();
    assert_eq!(FIRST_ID, 1);
    assert_eq!(store.create(String::from("a")), Some(1));
    assert_eq!(ids_of(&store), vec![1]);
}

#[test]
fn created_card_has_title_and_no_parent() {
    let mut store = CardStore::new();
    let id = store.create(String::from("idea")).unwrap();
    let card = store.find(id).unwrap();
    assert_eq!(card.title, "idea");
    assert_eq!(card.description, "");
    assert_eq!(card.parent, id);
    assert!(!card.editing);
    assert!(!card.collapsed);
    assert_eq!(card.rect, projector::geometry::make_default_rect());
}

#[test]
fn create_fills_first_gap() {
    let mut store = store_with(&[0, 1, 3]);
    assert_eq!(store.create(String::new()), Some(2));
}

#[test]
fn create_without_gap_takes_max_plus_one() {
    let mut store = store_with(&[0, 1, 2]);
    assert_eq!(store.create(String::new()), Some(3));
}

#[test]
fn create_sorts_then_appends() {
    let mut store = store_with(&[3, 0, 1]);
    assert_eq!(store.create(String::new()), Some(2));
    assert_eq!(ids_of(&store), vec![0, 1, 3, 2]);
}

#[test]
fn create_takes_first_of_several_gaps() {
    let mut store = store_with(&[10, 4, 5, 7]);
    assert_eq!(store.create(String::new()), Some(6));
    assert_eq!(store.create(String::new()), Some(8));
    assert_eq!(store.create(String::new()), Some(9));
    assert_eq!(store.create(String::new()), Some(11));
}

#[test]
fn create_counts_up_from_the_smallest_id_in_use() {
    let mut store = store_with(&[5]);
    assert_eq!(store.create(String::new()), Some(6));
    let mut store = store_with(&[-3]);
    assert_eq!(store.create(String::new()), Some(-2));
}

#[test]
fn create_many_gives_distinct_ids() {
    let mut store = CardStore::new();
    for n in 1..=40 {
        assert_eq!(store.create(format!("card {}", n)), Some(n));
    }
    let mut ids = ids_of(&store);
    assert_eq!(ids.len(), 40);
    ids.sort();
    ids.dedup();
    assert_eq!(ids.len(), 40);
    assert_eq!(ids, (1..=40).collect::<Vec<isize>>());
}

#[test]
fn create_after_delete_reuses_the_freed_id() {
    let mut store = CardStore::new();
    for _ in 0..5 {
        store.create(String::new()).unwrap();
    }
    assert_eq!(store.delete(3, DeletePolicy::CardOnly), 1);
    assert_eq!(store.create(String::new()), Some(3));
    assert_eq!(ids_of(&store), vec![1, 2, 4, 5, 3]);
}

#[test]
fn create_fails_when_ids_run_out() {
    let mut store = store_with(&[isize::MAX, isize::MAX - 1]);
    assert_eq!(store.create(String::from("x")), None);
    assert_eq!(ids_of(&store), vec![isize::MAX - 1, isize::MAX]);
}

#[test]
fn create_at_the_lowest_id_does_not_overflow() {
    let mut store = store_with(&[isize::MAX, isize::MIN]);
    assert_eq!(store.create(String::new()), Some(isize::MIN + 1));
}

#[test]
fn delete_card_only_leaves_children_dangling() {
    let mut store = store_with(&[1, 2, 3]);
    assert!(store.link(2, 1));
    assert!(store.link(3, 2));
    assert_eq!(store.delete(1, DeletePolicy::CardOnly), 1);
    assert_eq!(ids_of(&store), vec![2, 3]);
    assert_eq!(store.find(2).unwrap().parent, 1);
}

#[test]
fn delete_with_children_spares_grandchildren() {
    let mut store = store_with(&[1, 2, 3, 4, 5]);
    assert!(store.link(2, 1));
    assert!(store.link(3, 1));
    assert!(store.link(4, 2));
    assert_eq!(store.delete(1, DeletePolicy::WithChildren), 3);
    assert_eq!(ids_of(&store), vec![4, 5]);
    assert_eq!(store.find(4).unwrap().parent, 2);
}

#[test]
fn delete_with_children_again_takes_the_next_generation() {
    let mut store = store_with(&[1, 2, 3]);
    assert!(store.link(2, 1));
    assert!(store.link(3, 2));
    assert_eq!(store.delete(1, DeletePolicy::WithChildren), 2);
    assert_eq!(ids_of(&store), vec![3]);
    assert_eq!(store.delete(2, DeletePolicy::WithChildren), 0);
    assert_eq!(ids_of(&store), vec![3]);
}

#[test]
fn delete_of_missing_id_removes_nothing() {
    let mut store = store_with(&[1, 2]);
    assert!(store.link(2, 1));
    let mut orphan = Card::new(7);
    orphan.parent = 9;
    store.insert(orphan).unwrap();
    assert_eq!(store.delete(9, DeletePolicy::WithChildren), 0);
    assert_eq!(store.delete(9, DeletePolicy::CardOnly), 0);
    assert_eq!(ids_of(&store), vec![1, 2, 7]);
}

#[test]
fn delete_keeps_order_of_the_rest() {
    let mut store = store_with(&[9, 4, 7, 1]);
    assert_eq!(store.delete(7, DeletePolicy::CardOnly), 1);
    assert_eq!(ids_of(&store), vec![9, 4, 1]);
}
