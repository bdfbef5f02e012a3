//! Model of the backing store and of the operations executed against it.
//!
//! A `DbExecutor` owns the persistent state reached through one exclusive
//! store connection: the user table and the append-only login log. Every
//! operation that touches persistent state is a method on it, so that a
//! worker of the dispatch pool can execute operations strictly one at a
//! time.

use vstd::prelude::*;

pub mod auth;
pub mod logs;
pub mod models;

use crate::db::logs::AuditLog;
use crate::db::models::UserDirectory;

verus! {

/// The persistent state reached through one exclusive store connection:
/// the user table and the append-only log of login attempts.
pub struct DbExecutor {
    /// All registered principals.
    pub users: UserDirectory,
    /// Append-only record of every login attempt.
    pub audit: AuditLog,
}

impl DbExecutor {
    /// Both tables satisfy their invariants.
    pub open spec fn wf(&self) -> bool {
        self.users.wf()
    }

    /// An empty store: no users, no login records.
    pub fn new() -> (r: DbExecutor)
        ensures
            r.wf(),
            r.users@ =~= Seq::<crate::db::models::User>::empty(),
            r.audit@ =~= Seq::<crate::db::models::UserLog>::empty(),
    {
        DbExecutor { users: UserDirectory::new(), audit: AuditLog::new() }
    }
}

} // verus!
