use item_store::item::Item;
use item_store::store::Store;

fn item(id: u32, name: &str, description: &str) -> Item {
    Item::new(id, name.to_string(), description.to_string())
}

#[test]
fn new_item_holds_its_fields() {
    let it = Item::new(7, "n".to_string(), "d".to_string());
    assert_eq!(it.id, 7);
    assert_eq!(it.name, "n");
    assert_eq!(it.description, "d");
}

#[test]
fn duplicate_equals_the_item() {
    let it = item(3, "lamp", "brass");
    let copy = it.duplicate();
    assert_eq!(copy, it);
    assert_eq!(copy.id, 3);
    assert_eq!(copy.name, "lamp");
    assert_eq!(copy.description, "brass");
}

#[test]
fn new_store_is_empty() {
    let store = Store::new();
    assert_eq!(store.get(0), None);
    assert_eq!(store.get(1), None);
    assert_eq!(store.get(u32::MAX), None);
}

#[test]
fn put_then_get_returns_the_item() {
    let mut store = Store::new();
    store.put(item(5, "five", "the fifth"));
    assert_eq!(store.get(5), Some(&item(5, "five", "the fifth")));
}

#[test]
fn get_of_an_absent_id_is_none() {
    let mut store = Store::new();
    store.put(item(5, "five", "the fifth"));
    assert_eq!(store.get(4), None);
    assert_eq!(store.get(6), None);
}

#[test]
fn put_overwrites_the_item_at_the_same_id() {
    let mut store = Store::new();
    store.put(item(5, "old", "old text"));
    store.put(item(5, "new", "new text"));
    assert_eq!(store.get(5), Some(&item(5, "new", "new text")));
}

#[test]
fn put_leaves_other_ids_alone() {
    let mut store = Store::new();
    store.put(item(1, "a", "x"));
    store.put(item(2, "b", "y"));
    assert_eq!(store.get(1), Some(&item(1, "a", "x")));
    assert_eq!(store.get(2), Some(&item(2, "b", "y")));
}

#[test]
fn update_replaces_both_texts_and_keeps_the_id() {
    let mut store = Store::new();
    store.put(item(9, "a", "x"));
    assert!(store.update(9, "b".to_string(), "y".to_string()));
    let got = store.get(9).unwrap();
    assert_eq!(got.id, 9);
    assert_eq!(got.name, "b");
    assert_eq!(got.description, "y");
}

#[test]
fn update_leaves_other_ids_alone() {
    let mut store = Store::new();
    store.put(item(1, "a", "x"));
    store.put(item(2, "b", "y"));
    assert!(store.update(1, "c".to_string(), "z".to_string()));
    assert_eq!(store.get(2), Some(&item(2, "b", "y")));
}

#[test]
fn update_of_an_absent_id_changes_nothing() {
    let mut store = Store::new();
    store.put(item(1, "a", "x"));
    assert!(!store.update(2, "b".to_string(), "y".to_string()));
    assert_eq!(store.get(2), None);
    assert_eq!(store.get(1), Some(&item(1, "a", "x")));
}

#[test]
fn delete_removes_the_item() {
    let mut store = Store::new();
    store.put(item(1, "a", "x"));
    store.put(item(2, "b", "y"));
    assert!(store.delete(1));
    assert_eq!(store.get(1), None);
    assert_eq!(store.get(2), Some(&item(2, "b", "y")));
}

#[test]
fn delete_of_an_absent_id_reports_absence() {
    let mut store = Store::new();
    assert!(!store.delete(1));
    store.put(item(2, "b", "y"));
    assert!(!store.delete(1));
    assert_eq!(store.get(2), Some(&item(2, "b", "y")));
}

#[test]
fn delete_twice_reports_absence_the_second_time() {
    let mut store = Store::new();
    store.put(item(1, "a", "x"));
    assert!(store.delete(1));
    assert!(!store.delete(1));
    assert!(!store.delete(1));
    assert_eq!(store.get(1), None);
}

#[test]
fn put_after_delete_brings_the_id_back() {
    let mut store = Store::new();
    store.put(item(1, "a", "x"));
    assert!(store.delete(1));
    store.put(item(1, "c", "z"));
    assert_eq!(store.get(1), Some(&item(1, "c", "z")));
}

#[test]
fn smallest_and_largest_ids_are_keys_like_any_other() {
    let mut store = Store::new();
    store.put(item(0, "zero", "lowest"));
    store.put(item(u32::MAX, "max", "highest"));
    assert_eq!(store.get(0), Some(&item(0, "zero", "lowest")));
    assert_eq!(store.get(u32::MAX), Some(&item(u32::MAX, "max", "highest")));
    assert!(store.delete(0));
    assert_eq!(store.get(0), None);
    assert_eq!(store.get(u32::MAX), Some(&item(u32::MAX, "max", "highest")));
}

#[test]
fn empty_and_unusual_texts_are_kept_as_given() {
    let mut store = Store::new();
    store.put(item(1, "", ""));
    assert_eq!(store.get(1), Some(&item(1, "", "")));
    assert!(store.update(1, "caf\u{e9} \"q\"".to_string(), "line\nbreak".to_string()));
    assert_eq!(store.get(1), Some(&item(1, "caf\u{e9} \"q\"", "line\nbreak")));
}

#[test]
fn many_puts_with_distinct_ids_lose_nothing() {
    let mut store = Store::new();
    let mut id: u32 = 0;
    while id < 200 {
        store.put(item(id, &format!("n{}", id), &format!("d{}", id)));
        id += 1;
    }
    let mut id: u32 = 0;
    while id < 200 {
        assert_eq!(store.get(id), Some(&item(id, &format!("n{}", id), &format!("d{}", id))));
        id += 1;
    }
    assert_eq!(store.get(200), None);
}

#[test]
fn puts_with_distinct_ids_give_the_same_store_in_either_order() {
    let mut forward = Store::new();
    let mut backward = Store::new();
    let ids: Vec<u32> = vec![4, 8, 15, 16, 23, 42];
    for id in ids.iter() {
        forward.put(item(*id, "n", &format!("d{}", id)));
    }
    for id in ids.iter().rev() {
        backward.put(item(*id, "n", &format!("d{}", id)));
    }
    for id in 0u32..50 {
        assert_eq!(forward.get(id), backward.get(id));
    }
    assert_eq!(forward.get(15), Some(&item(15, "n", "d15")));
}
