use rest_api::users::{User, UserTable};

fn user(name: &str, email: &str) -> User {
    User { name: name.to_string(), email: email.to_string() }
}

#[test]
fn table_create_at_given_time() {
    let mut t = UserTable::new();
    let u = t.create("id-1".to_string(), user("Ann", "ann@x"), 1000);
    assert_eq!(u.id, "id-1");
    assert_eq!(u.create_at, 1000);
    assert_eq!(u.update_at, 1000);
    let got = t.get(&"id-1".to_string()).unwrap();
    assert_eq!(got.name, "Ann");
}

#[test]
fn table_update_refreshes_update_time_only() {
    let mut t = UserTable::new();
    t.create("k".to_string(), user("Ann", "ann@x"), 1000);
    let u = t.update(&"k".to_string(), user("Bea", "bea@x"), 2500).unwrap();
    assert_eq!(u.id, "k");
    assert_eq!(u.name, "Bea");
    assert_eq!(u.email, "bea@x");
    assert_eq!(u.create_at, 1000);
    assert_eq!(u.update_at, 2500);
    assert!(u.update_at > u.create_at);
}

#[test]
fn table_create_same_id_replaces() {
    let mut t = UserTable::new();
    t.create("k".to_string(), user("Ann", "a"), 1);
    t.create("k".to_string(), user("Bea", "b"), 2);
    let all = t.list();
    assert_eq!(all.len(), 1);
    assert_eq!(all[0].name, "Bea");
}

#[test]
fn table_remove_and_missing() {
    let mut t = UserTable::new();
    t.create("a".to_string(), user("A", "a"), 1);
    t.create("b".to_string(), user("B", "b"), 1);
    assert!(t.remove(&"a".to_string()));
    assert!(!t.remove(&"a".to_string()));
    assert!(t.get(&"a".to_string()).is_none());
    assert!(t.update(&"a".to_string(), user("x", "y"), 5).is_none());
    let all = t.list();
    assert_eq!(all.len(), 1);
    assert_eq!(all[0].id, "b");
}
