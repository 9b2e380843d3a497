use rest_api::models::Todo;
use rest_api::storage::Storage;

fn todo(id: u32, title: &str, completed: bool) -> Todo {
    Todo { id, title: title.to_string(), completed }
}

#[test]
fn new_store_is_empty() {
    let s = Storage::new();
    assert!(s.get_all().is_empty());
    assert!(s.get_by_id(1).is_none());
    assert!(s.can_create());
}

#[test]
fn create_assigns_counter_ids_from_one() {
    let mut s = Storage::new();
    let a = s.create("a".to_string());
    let b = s.create("b".to_string());
    assert_eq!(a.id, 1);
    assert_eq!(b.id, 2);
    assert_eq!(a.title, "a");
    assert!(!a.completed);
}

#[test]
fn get_after_create_returns_submitted_fields() {
    let mut s = Storage::new();
    let t = s.create("write tests".to_string());
    let got = s.get_by_id(t.id).unwrap();
    assert_eq!(got.id, t.id);
    assert_eq!(got.title, "write tests");
    assert!(!got.completed);
}

#[test]
fn ids_are_not_reused_after_delete() {
    let mut s = Storage::new();
    let a = s.create("a".to_string());
    assert!(s.delete(a.id));
    let b = s.create("b".to_string());
    assert_ne!(a.id, b.id);
    assert_eq!(b.id, 2);
}

#[test]
fn delete_then_get_is_not_found() {
    let mut s = Storage::new();
    let t = s.create("x".to_string());
    assert!(s.delete(t.id));
    assert!(s.get_by_id(t.id).is_none());
    assert!(!s.delete(t.id));
}

#[test]
fn update_changes_only_given_fields() {
    let mut s = Storage::new();
    let t = s.create("buy milk".to_string());
    let u = s.update(t.id, None, Some(true)).unwrap();
    assert_eq!(u.title, "buy milk");
    assert!(u.completed);
    let v = s.update(t.id, Some("buy bread".to_string()), None).unwrap();
    assert_eq!(v.title, "buy bread");
    assert!(v.completed);
    let got = s.get_by_id(t.id).unwrap();
    assert_eq!(got.title, "buy bread");
    assert!(got.completed);
}

#[test]
fn update_leaves_other_todos_alone() {
    let mut s = Storage::new();
    let a = s.create("a".to_string());
    let b = s.create("b".to_string());
    s.update(a.id, Some("A".to_string()), Some(true)).unwrap();
    let got = s.get_by_id(b.id).unwrap();
    assert_eq!(got.title, "b");
    assert!(!got.completed);
}

#[test]
fn never_issued_id_is_not_found_and_changes_nothing() {
    let mut s = Storage::new();
    s.create("a".to_string());
    assert!(s.get_by_id(99).is_none());
    assert!(s.update(99, Some("z".to_string()), Some(true)).is_none());
    assert!(!s.delete(99));
    let all = s.get_all();
    assert_eq!(all.len(), 1);
    assert_eq!(all[0].title, "a");
    assert!(!all[0].completed);
}

#[test]
fn get_all_lists_each_todo_once() {
    let mut s = Storage::new();
    for i in 0..5 {
        s.create(format!("t{}", i));
    }
    s.delete(3);
    let mut ids: Vec<u32> = s.get_all().iter().map(|t| t.id).collect();
    ids.sort();
    assert_eq!(ids, vec![1, 2, 4, 5]);
}

#[test]
fn restore_round_trip_keeps_the_set() {
    let mut s = Storage::new();
    s.create("a".to_string());
    s.create("b".to_string());
    s.create("c".to_string());
    s.update(2, None, Some(true));
    s.delete(1);
    let saved = s.get_all();
    let r = Storage::restore(saved.clone());
    let mut before: Vec<(u32, String, bool)> =
        saved.iter().map(|t| (t.id, t.title.clone(), t.completed)).collect();
    let mut after: Vec<(u32, String, bool)> =
        r.get_all().iter().map(|t| (t.id, t.title.clone(), t.completed)).collect();
    before.sort();
    after.sort();
    assert_eq!(before, after);
}

#[test]
fn restore_sets_counter_past_largest_id() {
    let mut r = Storage::restore(vec![todo(7, "x", false), todo(3, "y", true)]);
    let t = r.create("z".to_string());
    assert_eq!(t.id, 8);
    assert_eq!(r.get_by_id(3).unwrap().title, "y");
}

#[test]
fn restore_of_nothing_starts_at_one() {
    let mut r = Storage::restore(Vec::new());
    assert_eq!(r.create("a".to_string()).id, 1);
}

#[test]
fn restore_later_duplicate_wins() {
    let r = Storage::restore(vec![todo(2, "old", false), todo(2, "new", true)]);
    let all = r.get_all();
    assert_eq!(all.len(), 1);
    assert_eq!(all[0].title, "new");
    assert!(all[0].completed);
}

#[test]
fn many_creates_give_distinct_ids_and_lose_none() {
    let mut s = Storage::new();
    let n: u32 = 50;
    let mut ids = Vec::new();
    for i in 0..n {
        ids.push(s.create(format!("t{}", i)).id);
    }
    let mut sorted = ids.clone();
    sorted.sort();
    sorted.dedup();
    assert_eq!(sorted.len(), n as usize);
    assert_eq!(s.get_all().len(), n as usize);
}

#[test]
fn counter_exhausted_near_largest_id() {
    let r = Storage::restore(vec![todo(u32::MAX - 1, "last", false)]);
    assert!(!r.can_create());
    let s = Storage::restore(vec![todo(u32::MAX - 2, "one left", false)]);
    assert!(s.can_create());
}

#[test]
fn duplicate_copies_every_field() {
    let t = todo(4, "copy me", true);
    let d = t.duplicate();
    assert_eq!(d.id, 4);
    assert_eq!(d.title, "copy me");
    assert!(d.completed);
}
