//! Request handling: each handler makes one store operation and maps its result to an
//! HTTP status and a body. Transport, locking and JSON stay with the caller.
use vstd::prelude::*;
use crate::models::{CreateTodoRequest, Todo, UpdateTodoRequest};
use crate::storage::{opt_view, patched, todo_entries, Storage};
use crate::table::{keys_unique, table};
use crate::users::{new_user, renamed, User, UserResponse, UserTable};

verus! {

/// Status of a request that succeeded with a body.
pub const OK: u16 = 200;

/// Status of a request that succeeded with no body.
pub const NO_CONTENT: u16 = 204;

/// Status of a request for a record that is not there.
pub const NOT_FOUND: u16 = 404;

/// Relies on `uuid::Uuid::new_v4` for a random token, written by `Uuid`'s `Display`
/// in its hyphenated form: 36 characters.
#[verifier::external_body]
fn new_user_id() -> (r: String)
    ensures
        r@.len() == 36,
{
    uuid::Uuid::new_v4().to_string()
}

/// Relies on `chrono::Utc::now` for the current time, read with
/// `DateTime::timestamp_micros` as microseconds since the Unix epoch.
#[verifier::external_body]
fn now_micros() -> (r: i64) {
    chrono::Utc::now().timestamp_micros()
}

/// Lists every todo.
pub fn get_todos(storage: &Storage) -> (r: Result<Vec<Todo>, u16>)
    requires
        storage.wf(),
    ensures
        match r {
            Ok(v) => keys_unique(todo_entries(v@)) && table(todo_entries(v@)) == storage@.todos,
            Err(_) => false,
        },
{
    Ok(storage.get_all())
}

/// The todo under `id`, or `NOT_FOUND`.
pub fn get_todo(storage: &Storage, id: u32) -> (r: Result<Todo, u16>)
    requires
        storage.wf(),
    ensures
        match r {
            Ok(t) => storage@.lookup(id) == Some(t@),
            Err(s) => s == NOT_FOUND && storage@.lookup(id) is None,
        },
{
    match storage.get_by_id(id) {
        Some(todo) => Ok(todo),
        None => Err(NOT_FOUND),
    }
}

/// Creates a todo with the requested title.
pub fn create_todo(storage: &mut Storage, payload: CreateTodoRequest) -> (r: Result<Todo, u16>)
    requires
        old(storage).wf(),
        old(storage)@.next_id < u32::MAX,
    ensures
        final(storage).wf(),
        final(storage)@ == old(storage)@.created(payload.title@),
        match r {
            Ok(t) => t@ == old(storage)@.fresh(payload.title@),
            Err(_) => false,
        },
{
    Ok(storage.create(payload.title))
}

/// Updates the fields given in the request of the todo under `id`, or `NOT_FOUND`.
pub fn update_todo(storage: &mut Storage, id: u32, payload: UpdateTodoRequest) -> (r: Result<
    Todo,
    u16,
>)
    requires
        old(storage).wf(),
    ensures
        final(storage).wf(),
        final(storage)@ == old(storage)@.updated(id, opt_view(payload.title), payload.completed),
        match r {
            Ok(t) => old(storage)@.todos.contains_key(id) && t@ == patched(
                old(storage)@.todos[id],
                opt_view(payload.title),
                payload.completed,
            ),
            Err(s) => s == NOT_FOUND && !old(storage)@.todos.contains_key(id),
        },
{
    match storage.update(id, payload.title, payload.completed) {
        Some(todo) => Ok(todo),
        None => Err(NOT_FOUND),
    }
}

/// Deletes the todo under `id`: `NO_CONTENT`, or `NOT_FOUND`.
pub fn delete_todo(storage: &mut Storage, id: u32) -> (r: Result<u16, u16>)
    requires
        old(storage).wf(),
    ensures
        final(storage).wf(),
        final(storage)@ == old(storage)@.deleted(id),
        r == if old(storage)@.todos.contains_key(id) {
            Ok::<u16, u16>(NO_CONTENT)
        } else {
            Err::<u16, u16>(NOT_FOUND)
        },
{
    if storage.delete(id) {
        Ok(NO_CONTENT)
    } else {
        Err(NOT_FOUND)
    }
}

/// Creates a user under a fresh random token, created and updated now. Whatever token
/// and time came back, the user stored under the token is the one returned, with the
/// requested name and email.
pub fn create_users(users: &mut UserTable, user: User) -> (r: (u16, UserResponse))
    requires
        old(users).wf(),
    ensures
        final(users).wf(),
        r.0 == OK,
        r.1.id@.len() == 36,
        r.1@ == new_user(r.1.id@, user.name@, user.email@, r.1.create_at),
        final(users)@ == old(users)@.insert(r.1.id@, r.1@),
{
    let id = new_user_id();
    let now = now_micros();
    (OK, users.create(id, user, now))
}

/// Lists every user.
pub fn get_all_users(users: &UserTable) -> (r: (u16, Vec<UserResponse>))
    requires
        users.wf(),
    ensures
        r.0 == OK,
        keys_unique(r.1@.map_values(|u: UserResponse| (u.id@, u@))),
        table(r.1@.map_values(|u: UserResponse| (u.id@, u@))) == users@,
{
    (OK, users.list())
}

/// The user under `id` with `OK`, or `NOT_FOUND` and nothing.
pub fn get_user_by_id(users: &UserTable, id: &String) -> (r: (u16, Option<UserResponse>))
    requires
        users.wf(),
    ensures
        match r.1 {
            Some(u) => r.0 == OK && users@.contains_key(id@) && u@ == users@[id@],
            None => r.0 == NOT_FOUND && !users@.contains_key(id@),
        },
{
    match users.get(id) {
        Some(u) => (OK, Some(u)),
        None => (NOT_FOUND, None),
    }
}

/// Gives the user under `id` the requested name and email, updated now; `NOT_FOUND`
/// and no change where there is none. Whatever time came back, the stored user is the
/// one returned.
pub fn update_user_by_id(users: &mut UserTable, id: &String, user: User) -> (r: (
    u16,
    Option<UserResponse>,
))
    requires
        old(users).wf(),
    ensures
        final(users).wf(),
        match r.1 {
            Some(u) => r.0 == OK && old(users)@.contains_key(id@) && u@ == renamed(
                old(users)@[id@],
                user.name@,
                user.email@,
                u.update_at,
            ) && final(users)@ == old(users)@.insert(id@, u@),
            None => r.0 == NOT_FOUND && !old(users)@.contains_key(id@) && final(users)@ == old(
                users,
            )@,
        },
{
    let now = now_micros();
    match users.update(id, user, now) {
        Some(u) => (OK, Some(u)),
        None => (NOT_FOUND, None),
    }
}

/// Deletes the user under `id`: `OK`, or `NOT_FOUND`.
pub fn delete_user_by_id(users: &mut UserTable, id: &String) -> (r: u16)
    requires
        old(users).wf(),
    ensures
        final(users).wf(),
        final(users)@ == old(users)@.remove(id@),
        r == if old(users)@.contains_key(id@) {
            OK
        } else {
            NOT_FOUND
        },
{
    if users.remove(id) {
        OK
    } else {
        NOT_FOUND
    }
}

} // verus!
