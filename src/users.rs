//! The user store: users keyed by a random token, with creation and update times.
//!
//! Times are microseconds since the Unix epoch, in UTC.
use vstd::prelude::*;
use crate::table::{
    keys_unique, lemma_table_dom, lemma_table_finite, lemma_table_index, lemma_table_push,
    lemma_table_remove, lemma_table_update, lemma_unique_push, table,
};

verus! {

/// The body of a request that creates or replaces a user.
#[derive(Clone, Debug)]
pub struct User {
    pub name: String,
    pub email: String,
}

/// A stored user.
#[derive(Clone, Debug)]
pub struct UserStore {
    pub id: String,
    pub name: String,
    pub email: String,
    pub create_at: i64,
    pub update_at: i64,
}

/// A user as handed back to a client.
#[derive(Clone, Debug)]
pub struct UserResponse {
    pub id: String,
    pub name: String,
    pub email: String,
    pub create_at: i64,
    pub update_at: i64,
}

/// What a user is, as plain values.
pub struct UserView {
    pub id: Seq<char>,
    pub name: Seq<char>,
    pub email: Seq<char>,
    pub create_at: i64,
    pub update_at: i64,
}

impl View for UserStore {
    type V = UserView;

    open spec fn view(&self) -> UserView {
        UserView {
            id: self.id@,
            name: self.name@,
            email: self.email@,
            create_at: self.create_at,
            update_at: self.update_at,
        }
    }
}

impl View for UserResponse {
    type V = UserView;

    open spec fn view(&self) -> UserView {
        UserView {
            id: self.id@,
            name: self.name@,
            email: self.email@,
            create_at: self.create_at,
            update_at: self.update_at,
        }
    }
}

impl UserStore {
    /// This user as a response.
    pub fn to_response(&self) -> (r: UserResponse)
        ensures
            r@ == self@,
    {
        UserResponse {
            id: self.id.clone(),
            name: self.name.clone(),
            email: self.email.clone(),
            create_at: self.create_at,
            update_at: self.update_at,
        }
    }
}

/// The entries that a sequence of users stands for: each user under its id.
pub open spec fn user_entries(s: Seq<UserStore>) -> Seq<(Seq<char>, UserView)> {
    s.map_values(|u: UserStore| (u.id@, u@))
}

/// The user that a creation at time `now` makes.
pub open spec fn new_user(id: Seq<char>, name: Seq<char>, email: Seq<char>, now: i64) -> UserView {
    UserView { id, name, email, create_at: now, update_at: now }
}

/// A user with a new name and email, updated at `now`; its id and creation time kept.
pub open spec fn renamed(u: UserView, name: Seq<char>, email: Seq<char>, now: i64) -> UserView {
    UserView { id: u.id, name, email, create_at: u.create_at, update_at: now }
}

/// Every user is stored under its own id.
pub open spec fn users_wf(m: Map<Seq<char>, UserView>) -> bool {
    &&& m.dom().finite()
    &&& forall|k: Seq<char>| #[trigger] m.contains_key(k) ==> m[k].id == k
}

/// The users by id.
pub struct UserTable {
    users: Vec<UserStore>,
}

impl View for UserTable {
    type V = Map<Seq<char>, UserView>;

    closed spec fn view(&self) -> Map<Seq<char>, UserView> {
        table(user_entries(self.users@))
    }
}

impl UserTable {
    /// The table's invariant: ids are unique in the list, and each user is under its id.
    pub closed spec fn wf(&self) -> bool {
        &&& keys_unique(user_entries(self.users@))
        &&& users_wf(self@)
    }

    /// A well-formed table has every user under its own id.
    pub proof fn lemma_wf(&self)
        requires
            self.wf(),
        ensures
            users_wf(self@),
    {
    }

    /// An empty table.
    pub fn new() -> (r: UserTable)
        ensures
            r.wf(),
            r@ == Map::<Seq<char>, UserView>::empty(),
    {
        let r = UserTable { users: Vec::new() };
        proof {
            assert(user_entries(r.users@) =~= Seq::<(Seq<char>, UserView)>::empty());
            assert(r@ =~= Map::<Seq<char>, UserView>::empty());
        }
        r
    }

    /// The index of the user under `id` in the list, if there is one.
    fn position(&self, id: &String) -> (r: Option<usize>)
        requires
            self.wf(),
        ensures
            match r {
                Some(i) => i < self.users@.len() && self.users@[i as int].id@ == id@
                    && self@.contains_key(id@) && self@[id@] == self.users@[i as int]@,
                None => !self@.contains_key(id@),
            },
    {
        let mut i: usize = 0;
        while i < self.users.len()
            invariant
                self.wf(),
                0 <= i <= self.users@.len(),
                forall|j: int| 0 <= j < i ==> self.users@[j].id@ != id@,
            decreases self.users@.len() - i,
        {
            if self.users[i].id == *id {
                proof {
                    lemma_table_index(user_entries(self.users@), i as int);
                }
                return Some(i);
            }
            i += 1;
        }
        proof {
            lemma_table_dom(user_entries(self.users@), id@);
            if self@.contains_key(id@) {
                let j = choose|j: int|
                    0 <= j < user_entries(self.users@).len() && user_entries(self.users@)[j].0
                        == id@;
                assert(self.users@[j].id@ == id@);
            }
        }
        None
    }

    /// Puts `u` under its id, replacing any user there.
    fn put(&mut self, u: UserStore)
        requires
            old(self).wf(),
        ensures
            final(self).wf(),
            final(self)@ == old(self)@.insert(u.id@, u@),
    {
        let ghost e = (u.id@, u@);
        match self.position(&u.id) {
            Some(j) => {
                proof {
                    lemma_table_update(user_entries(self.users@), j as int, e);
                }
                self.users.set(j, u);
                proof {
                    assert(user_entries(self.users@) =~= user_entries(old(self).users@).update(
                        j as int,
                        e,
                    ));
                }
            },
            None => {
                proof {
                    lemma_unique_push(user_entries(self.users@), e);
                    lemma_table_push(user_entries(self.users@), e);
                }
                self.users.push(u);
                proof {
                    assert(user_entries(self.users@) =~= user_entries(old(self).users@).push(e));
                }
            },
        }
        proof {
            lemma_table_finite(user_entries(self.users@));
        }
    }

    /// Stores a user with the given id, name and email, created and updated at `now`,
    /// replacing any user under that id, and returns it.
    pub fn create(&mut self, id: String, user: User, now: i64) -> (r: UserResponse)
        requires
            old(self).wf(),
        ensures
            final(self).wf(),
            r@ == new_user(id@, user.name@, user.email@, now),
            final(self)@ == old(self)@.insert(id@, r@),
    {
        let u = UserStore {
            id,
            name: user.name,
            email: user.email,
            create_at: now,
            update_at: now,
        };
        let r = u.to_response();
        self.put(u);
        r
    }

    /// Every stored user, each once.
    pub fn list(&self) -> (r: Vec<UserResponse>)
        requires
            self.wf(),
        ensures
            keys_unique(r@.map_values(|u: UserResponse| (u.id@, u@))),
            table(r@.map_values(|u: UserResponse| (u.id@, u@))) == self@,
    {
        let mut r: Vec<UserResponse> = Vec::new();
        let mut i: usize = 0;
        while i < self.users.len()
            invariant
                0 <= i <= self.users@.len(),
                r@.map_values(|u: UserResponse| (u.id@, u@)) == user_entries(
                    self.users@.take(i as int),
                ),
            decreases self.users@.len() - i,
        {
            let ghost before = r@;
            let d = self.users[i].to_response();
            r.push(d);
            proof {
                let e = (d.id@, d@);
                assert(r@.map_values(|u: UserResponse| (u.id@, u@)) =~= before.map_values(
                    |u: UserResponse| (u.id@, u@),
                ).push(e));
                assert(self.users@.take(i + 1) =~= self.users@.take(i as int).push(
                    self.users@[i as int],
                ));
                assert(user_entries(self.users@.take(i + 1)) =~= user_entries(
                    self.users@.take(i as int),
                ).push(e));
            }
            i += 1;
        }
        proof {
            assert(self.users@.take(i as int) =~= self.users@);
        }
        r
    }

    /// The user under `id`, if there is one.
    pub fn get(&self, id: &String) -> (r: Option<UserResponse>)
        requires
            self.wf(),
        ensures
            match r {
                Some(u) => self@.contains_key(id@) && u@ == self@[id@],
                None => !self@.contains_key(id@),
            },
    {
        match self.position(id) {
            Some(i) => Some(self.users[i].to_response()),
            None => None,
        }
    }

    /// Gives the user under `id` a new name and email, updated at `now`, and returns it;
    /// with no user there, changes nothing and returns `None`.
    pub fn update(&mut self, id: &String, user: User, now: i64) -> (r: Option<UserResponse>)
        requires
            old(self).wf(),
        ensures
            final(self).wf(),
            match r {
                Some(u) => old(self)@.contains_key(id@) && u@ == renamed(
                    old(self)@[id@],
                    user.name@,
                    user.email@,
                    now,
                ) && final(self)@ == old(self)@.insert(id@, u@),
                None => !old(self)@.contains_key(id@) && final(self)@ == old(self)@,
            },
    {
        match self.position(id) {
            Some(i) => {
                let cur = &self.users[i];
                let u = UserStore {
                    id: cur.id.clone(),
                    name: user.name,
                    email: user.email,
                    create_at: cur.create_at,
                    update_at: now,
                };
                let r = u.to_response();
                self.put(u);
                Some(r)
            },
            None => None,
        }
    }

    /// Removes the user under `id`; says whether there was one.
    pub fn remove(&mut self, id: &String) -> (r: bool)
        requires
            old(self).wf(),
        ensures
            final(self).wf(),
            final(self)@ == old(self)@.remove(id@),
            r == old(self)@.contains_key(id@),
    {
        match self.position(id) {
            Some(i) => {
                proof {
                    lemma_table_remove(user_entries(self.users@), i as int);
                }
                self.users.remove(i);
                proof {
                    assert(user_entries(self.users@) =~= user_entries(old(self).users@).remove(
                        i as int,
                    ));
                    lemma_table_finite(user_entries(self.users@));
                }
                true
            },
            None => {
                proof {
                    assert(old(self)@.remove(id@) =~= old(self)@);
                }
                false
            },
        }
    }
}

/// An update at a time past the user's last update moves its update time forward, past
/// its creation time too when that was not later than its last update; the id, the
/// creation time and every other user stay as they were.
pub proof fn lemma_update_refreshes(
    m: Map<Seq<char>, UserView>,
    id: Seq<char>,
    name: Seq<char>,
    email: Seq<char>,
    now: i64,
)
    requires
        users_wf(m),
        m.contains_key(id),
        now > m[id].update_at,
    ensures
        ({
            let after = m.insert(id, renamed(m[id], name, email, now));
            &&& after[id].update_at > m[id].update_at
            &&& m[id].create_at <= m[id].update_at ==> after[id].update_at > after[id].create_at
            &&& after[id].id == id
            &&& after[id].create_at == m[id].create_at
            &&& after[id].name == name
            &&& after[id].email == email
            &&& forall|k: Seq<char>|
                k != id ==> #[trigger] after.contains_key(k) == m.contains_key(k) && (
                m.contains_key(k) ==> after[k] == m[k])
            &&& users_wf(after)
        }),
{
}

} // verus!
