use rest_api::handlers::{
    create_todo, create_users, delete_todo, delete_user_by_id, get_all_users, get_todo,
    get_todos, get_user_by_id, update_todo, update_user_by_id, NOT_FOUND, NO_CONTENT, OK,
};
use rest_api::models::{CreateTodoRequest, UpdateTodoRequest};
use rest_api::storage::Storage;
use rest_api::users::{User, UserTable};

fn user(name: &str, email: &str) -> User {
    User { name: name.to_string(), email: email.to_string() }
}

#[test]
fn todo_create_update_delete_scenario() {
    let mut s = Storage::new();
    let created =
        create_todo(&mut s, CreateTodoRequest { title: "buy milk".to_string() }).unwrap();
    assert_eq!(created.id, 1);
    assert_eq!(created.title, "buy milk");
    assert!(!created.completed);

    let updated = update_todo(
        &mut s,
        1,
        UpdateTodoRequest { title: None, completed: Some(true) },
    )
    .unwrap();
    assert_eq!(updated.id, 1);
    assert_eq!(updated.title, "buy milk");
    assert!(updated.completed);

    assert_eq!(delete_todo(&mut s, 1), Ok(NO_CONTENT));
    assert_eq!(get_todo(&s, 1).unwrap_err(), NOT_FOUND);
}

#[test]
fn todo_handlers_not_found() {
    let mut s = Storage::new();
    assert_eq!(get_todo(&s, 5).unwrap_err(), 404);
    let body = UpdateTodoRequest { title: Some("x".to_string()), completed: None };
    let r = update_todo(&mut s, 5, body);
    assert_eq!(r.unwrap_err(), 404);
    assert_eq!(delete_todo(&mut s, 5), Err(404));
    assert!(get_todos(&s).unwrap().is_empty());
}

#[test]
fn todo_list_handler() {
    let mut s = Storage::new();
    create_todo(&mut s, CreateTodoRequest { title: "a".to_string() }).unwrap();
    create_todo(&mut s, CreateTodoRequest { title: "b".to_string() }).unwrap();
    let mut titles: Vec<String> = get_todos(&s).unwrap().into_iter().map(|t| t.title).collect();
    titles.sort();
    assert_eq!(titles, vec!["a".to_string(), "b".to_string()]);
}

#[test]
fn status_codes() {
    assert_eq!(OK, 200);
    assert_eq!(NO_CONTENT, 204);
    assert_eq!(NOT_FOUND, 404);
}

#[test]
fn user_create_gives_hyphenated_token_and_current_time() {
    let mut t = UserTable::new();
    let (status, u) = create_users(&mut t, user("Ann", "ann@example.com"));
    assert_eq!(status, 200);
    assert_eq!(u.id.len(), 36);
    assert_eq!(u.id.chars().filter(|c| *c == '-').count(), 4);
    assert_eq!(u.name, "Ann");
    assert_eq!(u.email, "ann@example.com");
    assert_eq!(u.create_at, u.update_at);
    // 2020-01-01T00:00:00Z in microseconds
    assert!(u.create_at > 1_577_836_800_000_000);
}

#[test]
fn user_tokens_differ() {
    let mut t = UserTable::new();
    let (_, a) = create_users(&mut t, user("A", "a@x"));
    let (_, b) = create_users(&mut t, user("B", "b@x"));
    assert_ne!(a.id, b.id);
    assert_eq!(get_all_users(&t).1.len(), 2);
}

#[test]
fn user_get_update_delete() {
    let mut t = UserTable::new();
    let (_, u) = create_users(&mut t, user("Ann", "ann@x"));
    let (status, got) = get_user_by_id(&t, &u.id);
    assert_eq!(status, 200);
    assert_eq!(got.unwrap().name, "Ann");

    let (status, upd) = update_user_by_id(&mut t, &u.id, user("Bea", "bea@x"));
    assert_eq!(status, 200);
    let upd = upd.unwrap();
    assert_eq!(upd.id, u.id);
    assert_eq!(upd.name, "Bea");
    assert_eq!(upd.email, "bea@x");
    assert_eq!(upd.create_at, u.create_at);
    assert!(upd.update_at >= u.update_at);

    assert_eq!(delete_user_by_id(&mut t, &u.id), 200);
    let (status, got) = get_user_by_id(&t, &u.id);
    assert_eq!(status, 404);
    assert!(got.is_none());
    assert_eq!(delete_user_by_id(&mut t, &u.id), 404);
}

#[test]
fn user_missing_id_not_found() {
    let mut t = UserTable::new();
    let missing = "no-such-user".to_string();
    assert_eq!(get_user_by_id(&t, &missing).0, 404);
    let (status, r) = update_user_by_id(&mut t, &missing, user("x", "y"));
    assert_eq!(status, 404);
    assert!(r.is_none());
    assert!(get_all_users(&t).1.is_empty());
}
