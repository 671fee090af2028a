use projector::{Card, CardStore, Rect};

fn store_with(ids: &[isize]) -> CardStore {
    let mut store = CardStore::new();
    for id in ids {
        assert_eq!(store.insert(Card::new(*id)), Ok(()));
    }
    store
}

#[test]
fn link_sets_parent() {
    let mut store = store_with(&[1, 2]);
    assert!(store.link(2, 1));
    assert_eq!(store.find(2).unwrap().parent, 1);
    assert_eq!(store.find(1).unwrap().parent, 1);
}

#[test]
fn link_to_self_leaves_no_parent() {
    let mut store = store_with(&[1, 2]);
    assert!(store.link(2, 1));
    assert!(store.link(2, 2));
    assert!(store.find(2).unwrap().is_root());
}

#[test]
fn link_needs_both_cards() {
    let mut store = store_with(&[1, 2]);
    assert!(!store.link(2, 5));
    assert!(!store.link(5, 2));
    assert_eq!(store.find(2).unwrap().parent, 2);
}

#[test]
fn toggle_editing_flips() {
    let mut store = store_with(&[1]);
    assert!(store.toggle_editing(1));
    assert!(store.find(1).unwrap().editing);
    assert!(store.toggle_editing(1));
    assert!(!store.find(1).unwrap().editing);
    assert!(!store.toggle_editing(2));
}

#[test]
fn texts_change_only_while_editing() {
    let mut store = store_with(&[1]);
    assert!(!store.set_title(1, String::from("no")));
    assert!(!store.set_description(1, String::from("no")));
    assert_eq!(store.find(1).unwrap().title, "");
    assert_eq!(store.find(1).unwrap().description, "");
    store.toggle_editing(1);
    assert!(store.set_title(1, String::from("yes")));
    assert!(store.set_description(1, String::from("line\nline")));
    assert_eq!(store.find(1).unwrap().title, "yes");
    assert_eq!(store.find(1).unwrap().description, "line\nline");
    assert!(!store.set_title(3, String::from("none")));
}

#[test]
fn set_rect_and_collapsed() {
    let mut store = store_with(&[1, 2]);
    let r = Rect { min_x: 10, min_y: 20, max_x: 30, max_y: 40 };
    assert!(store.set_rect(2, r));
    assert_eq!(store.find(2).unwrap().rect, r);
    assert_eq!(store.find(1).unwrap().rect, projector::geometry::make_default_rect());
    assert!(!store.set_rect(3, r));
    assert!(store.set_collapsed(1, true));
    assert!(store.find(1).unwrap().collapsed);
    assert!(!store.set_collapsed(3, true));
}
