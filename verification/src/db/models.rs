//! Data model: principals, insertion rows, login records, and the user
//! table with its uniqueness invariants.

use vstd::prelude::*;

verus! {

/// Role of a principal.
#[derive(Clone, Copy, PartialEq, Eq, Structural, Debug)]
pub enum Role {
    Customer,
    Admin,
}

/// A registered principal. The snapshot stored in a session is immutable:
/// a later deactivation does not rewrite snapshots already issued.
pub struct User {
    pub id: i32,
    pub login: String,
    /// Encoded password hash. Never serialized and never logged.
    pub hash: String,
    pub role: Role,
    pub active: bool,
}

impl Clone for User {
    fn clone(&self) -> (res: Self)
        ensures
            res == *self,
    {
        User {
            id: self.id,
            login: self.login.clone(),
            hash: self.hash.clone(),
            role: self.role,
            active: self.active,
        }
    }
}

/// Row inserted for a freshly signed-up principal; the table assigns the id.
pub struct NewUser {
    /// Already normalized login.
    pub login: String,
    /// Encoded password hash.
    pub hash: String,
    pub role: Role,
}

/// One login attempt, written unconditionally on every login call.
pub struct UserLog {
    /// Normalized login that was attempted, whether or not it exists.
    pub login: String,
    /// Milliseconds since the Unix epoch.
    pub logging_time: i64,
    pub logging_succession: bool,
    pub ip_addr: String,
    pub user_agent: String,
}

impl Clone for UserLog {
    fn clone(&self) -> (res: Self)
        ensures
            res == *self,
    {
        UserLog {
            login: self.login.clone(),
            logging_time: self.logging_time,
            logging_succession: self.logging_succession,
            ip_addr: self.ip_addr.clone(),
            user_agent: self.user_agent.clone(),
        }
    }
}

/// There is at most one user for any login.
pub open spec fn unique_logins(s: Seq<User>) -> bool {
    forall|i: int, j: int|
        0 <= i < s.len() && 0 <= j < s.len() && s[i].login@ == s[j].login@ ==> i == j
}

/// There is at most one user for any id.
pub open spec fn unique_ids(s: Seq<User>) -> bool {
    forall|i: int, j: int| 0 <= i < s.len() && 0 <= j < s.len() && s[i].id == s[j].id ==> i == j
}

/// Some user carries this (normalized) login.
pub open spec fn has_login(s: Seq<User>, login: Seq<char>) -> bool {
    exists|i: int| 0 <= i < s.len() && s[i].login@ == login
}

/// Index of the user carrying this login; meaningful under `unique_logins`.
pub open spec fn login_index(s: Seq<User>, login: Seq<char>) -> int {
    choose|i: int| 0 <= i < s.len() && s[i].login@ == login
}

/// The user carrying this login; meaningful when `has_login` holds.
pub open spec fn user_with_login(s: Seq<User>, login: Seq<char>) -> User {
    s[login_index(s, login)]
}

/// Some user carries this id.
pub open spec fn has_id(s: Seq<User>, id: i32) -> bool {
    exists|i: int| 0 <= i < s.len() && s[i].id == id
}

/// Index of the user carrying this id; meaningful under `unique_ids`.
pub open spec fn id_index(s: Seq<User>, id: i32) -> int {
    choose|i: int| 0 <= i < s.len() && s[i].id == id
}

/// The user carrying this id; meaningful when `has_id` holds.
pub open spec fn user_with_id(s: Seq<User>, id: i32) -> User {
    s[id_index(s, id)]
}

/// The user table: logins and ids are unique, ids grow monotonically.
pub struct UserDirectory {
    users: Vec<User>,
    next_id: i32,
}

impl View for UserDirectory {
    type V = Seq<User>;

    closed spec fn view(&self) -> Seq<User> {
        self.users@
    }
}

impl UserDirectory {
    /// The next id the table will assign.
    pub closed spec fn next_id(&self) -> int {
        self.next_id as int
    }

    /// Uniqueness of logins and ids, and every stored id lies below the
    /// id counter, so a fresh id never collides.
    pub open spec fn wf(&self) -> bool {
        &&& unique_logins(self@)
        &&& unique_ids(self@)
        &&& 1 <= self.next_id()
        &&& forall|i: int| 0 <= i < self@.len() ==> 1 <= #[trigger] self@[i].id < self.next_id()
    }

    /// The id counter has room for one more principal.
    pub open spec fn has_capacity(&self) -> bool {
        self.next_id() < i32::MAX as int
    }

    /// An empty table.
    pub fn new() -> (r: UserDirectory)
        ensures
            r.wf(),
            r@ =~= Seq::<User>::empty(),
            r.next_id() == 1,
    {
        UserDirectory { users: Vec::new(), next_id: 1 }
    }

    /// Whether the id counter has room for one more principal.
    pub fn capacity_left(&self) -> (b: bool)
        ensures
            b == self.has_capacity(),
    {
        self.next_id < i32::MAX
    }

    /// Number of registered principals.
    pub fn len(&self) -> (n: usize)
        ensures
            n == self@.len(),
    {
        self.users.len()
    }

    /// Look a principal up by its exact (already normalized) login.
    pub fn find_by_login(&self, login: &String) -> (r: Option<&User>)
        requires
            self.wf(),
        ensures
            r is Some <==> has_login(self@, login@),
            r is Some ==> *r->0 == user_with_login(self@, login@),
    {
        let n = self.users.len();
        let mut i: usize = 0;
        while i < n
            invariant
                n == self@.len(),
                i <= n,
                self.wf(),
                forall|j: int| 0 <= j < i ==> #[trigger] self@[j].login@ != login@,
            decreases n - i,
        {
            if self.users[i].login == *login {
                assert(has_login(self@, login@));
                assert(user_with_login(self@, login@) == self@[i as int]);
                return Some(&self.users[i]);
            }
            i += 1;
        }
        None
    }

    /// Look a principal up by id.
    pub fn find_by_id(&self, id: i32) -> (r: Option<&User>)
        requires
            self.wf(),
        ensures
            r is Some <==> has_id(self@, id),
            r is Some ==> *r->0 == user_with_id(self@, id),
    {
        let n = self.users.len();
        let mut i: usize = 0;
        while i < n
            invariant
                n == self@.len(),
                i <= n,
                self.wf(),
                forall|j: int| 0 <= j < i ==> #[trigger] self@[j].id != id,
            decreases n - i,
        {
            if self.users[i].id == id {
                assert(has_id(self@, id));
                assert(user_with_id(self@, id) == self@[i as int]);
                return Some(&self.users[i]);
            }
            i += 1;
        }
        None
    }

    /// Insert a freshly signed-up principal and assign it the next id.
    pub fn add_user(&mut self, row: NewUser) -> (id: i32)
        requires
            old(self).wf(),
            !has_login(old(self)@, row.login@),
            old(self).has_capacity(),
        ensures
            final(self).wf(),
            id == old(self).next_id(),
            final(self)@ =~= old(self)@.push(
                (User { id, login: row.login, hash: row.hash, role: row.role, active: true }),
            ),
            final(self).next_id() == old(self).next_id() + 1,
    {
        let id = self.next_id;
        let user = User { id, login: row.login, hash: row.hash, role: row.role, active: true };
        self.users.push(user);
        self.next_id = id + 1;
        id
    }

    /// Mark the principal with this id inactive; a miss changes nothing.
    pub fn deactivate(&mut self, id: i32)
        requires
            old(self).wf(),
        ensures
            final(self).wf(),
            final(self).next_id() == old(self).next_id(),
            has_id(old(self)@, id) ==> final(self)@ =~= old(self)@.update(
                id_index(old(self)@, id),
                (User {
                    id,
                    login: old(self)@[id_index(old(self)@, id)].login,
                    hash: old(self)@[id_index(old(self)@, id)].hash,
                    role: old(self)@[id_index(old(self)@, id)].role,
                    active: false,
                }),
            ),
            !has_id(old(self)@, id) ==> final(self)@ =~= old(self)@,
    {
        let n = self.users.len();
        let mut i: usize = 0;
        while i < n
            invariant
                n == self@.len(),
                i <= n,
                self.wf(),
                self@ =~= old(self)@,
                self.next_id() == old(self).next_id(),
                forall|j: int| 0 <= j < i ==> #[trigger] self@[j].id != id,
            decreases n - i,
        {
            if self.users[i].id == id {
                assert(has_id(old(self)@, id));
                assert(id_index(old(self)@, id) == i as int);
                let row = self.users.remove(i);
                let updated = User {
                    id: row.id,
                    login: row.login,
                    hash: row.hash,
                    role: row.role,
                    active: false,
                };
                self.users.insert(i, updated);
                assert(self@ =~= old(self)@.update(
                    i as int,
                    (User {
                        id,
                        login: old(self)@[i as int].login,
                        hash: old(self)@[i as int].hash,
                        role: old(self)@[i as int].role,
                        active: false,
                    }),
                ));
                return ;
            }
            i += 1;
        }
    }

    /// Snapshot of the whole table, in insertion order.
    pub fn get_all(&self) -> (r: Vec<User>)
        ensures
            r@ =~= self@,
    {
        let n = self.users.len();
        let mut out: Vec<User> = Vec::new();
        let mut i: usize = 0;
        while i < n
            invariant
                n == self@.len(),
                i <= n,
                out@ =~= self@.subrange(0, i as int),
            decreases n - i,
        {
            out.push(self.users[i].clone());
            assert(out@ =~= self@.subrange(0, i + 1 as int));
            i += 1;
        }
        assert(out@ =~= self@);
        out
    }
}

} // verus!
