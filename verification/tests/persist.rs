use projector::{Card, CardRecord, CardStore, LoadError, Rect};

fn record(id: isize, title: &str, parent: isize) -> CardRecord {
    CardRecord {
        title: String::from(title),
        description: format!("about {}", title),
        parent,
        rect: Rect { min_x: 1, min_y: 2, max_x: 3, max_y: id as u32 },
        id,
        collapsed: id % 2 == 0,
    }
}

#[test]
fn record_of_card_has_every_persisted_field() {
    let mut c = Card::new(4);
    c.title = String::from("t");
    c.description = String::from("d");
    c.parent = 9;
    c.collapsed = true;
    c.editing = true;
    c.rect = Rect { min_x: 1, min_y: 2, max_x: 3, max_y: 4 };
    let r = c.to_record();
    assert_eq!(
        r,
        CardRecord {
            title: String::from("t"),
            description: String::from("d"),
            parent: 9,
            rect: Rect { min_x: 1, min_y: 2, max_x: 3, max_y: 4 },
            id: 4,
            collapsed: true,
        }
    );
    let back = Card::from_record(r.clone());
    assert!(!back.editing);
    c.editing = false;
    assert_eq!(back, c);
    assert_eq!(back.to_record(), r);
}

#[test]
fn load_keeps_order_and_fields() {
    let records = vec![record(5, "five", 5), record(2, "two", 5), record(9, "nine", 77)];
    let store = CardStore::load(records.clone()).unwrap();
    assert_eq!(store.len(), 3);
    let ids: Vec<isize> = store.all().iter().map(|c| c.id).collect();
    assert_eq!(ids, vec![5, 2, 9]);
    assert!(store.all().iter().all(|c| !c.editing));
    assert_eq!(store.save(), records);
}

#[test]
fn save_then_load_round_trips() {
    let mut store = CardStore::new();
    for title in ["a", "b", "c"] {
        store.create(String::from(title)).unwrap();
    }
    store.link(2, 1);
    store.toggle_editing(3);
    store.set_description(3, String::from("text"));
    store.set_collapsed(1, true);
    store.set_rect(2, Rect { min_x: 9, min_y: 8, max_x: 7, max_y: 6 });
    let saved = store.save();
    let loaded = CardStore::load(saved.clone()).unwrap();
    assert_eq!(loaded.len(), store.len());
    for (a, b) in store.all().iter().zip(loaded.all().iter()) {
        assert_eq!(a.title, b.title);
        assert_eq!(a.description, b.description);
        assert_eq!(a.parent, b.parent);
        assert_eq!(a.rect, b.rect);
        assert_eq!(a.collapsed, b.collapsed);
        assert_eq!(a.id, b.id);
        assert!(!b.editing);
    }
    assert_eq!(loaded.save(), saved);
}

#[test]
fn load_of_nothing_is_an_empty_store() {
    let store = CardStore::load(Vec::new()).unwrap();
    assert!(store.is_empty());
    assert!(store.save().is_empty());
}

#[test]
fn load_names_the_first_repeated_id() {
    let records = vec![
        record(1, "a", 1),
        record(2, "b", 1),
        record(3, "c", 1),
        record(2, "d", 1),
        record(1, "e", 1),
    ];
    assert_eq!(CardStore::load(records).err(), Some(LoadError::DuplicateId(2)));
}

#[test]
fn load_tolerates_dangling_parents() {
    let store = CardStore::load(vec![record(1, "a", 42)]).unwrap();
    assert_eq!(store.find(1).unwrap().parent, 42);
    assert!(store.connectors().is_empty());
}
