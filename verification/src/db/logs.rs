//! Append-only audit trail of login attempts.
//!
//! One record is written for every login call, successful or not,
//! including calls that name a login that does not exist. The trail only
//! ever grows; a reporting surface outside this crate reads it.

use vstd::prelude::*;

use crate::db::models::UserLog;
use crate::db::DbExecutor;

verus! {

/// Request: list the whole audit trail. Admin-only; the caller gates.
pub struct GetLogs;

/// The audit trail. Records are only ever appended.
pub struct AuditLog {
    records: Vec<UserLog>,
}

impl View for AuditLog {
    type V = Seq<UserLog>;

    closed spec fn view(&self) -> Seq<UserLog> {
        self.records@
    }
}

impl AuditLog {
    /// An empty trail.
    pub fn new() -> (r: AuditLog)
        ensures
            r@ =~= Seq::<UserLog>::empty(),
    {
        AuditLog { records: Vec::new() }
    }

    /// Number of records written so far.
    pub fn len(&self) -> (n: usize)
        ensures
            n == self@.len(),
    {
        self.records.len()
    }

    /// Append one login-attempt record; nothing is ever removed.
    pub fn append(&mut self, record: UserLog)
        ensures
            final(self)@ =~= old(self)@.push(record),
    {
        self.records.push(record);
    }

    /// Read access to the whole trail, oldest record first.
    pub fn records(&self) -> (r: &Vec<UserLog>)
        ensures
            r@ == self@,
    {
        &self.records
    }

    /// Snapshot of the whole trail, oldest record first.
    pub fn get_all(&self) -> (r: Vec<UserLog>)
        ensures
            r@ =~= self@,
    {
        let n = self.records.len();
        let mut out: Vec<UserLog> = Vec::new();
        let mut i: usize = 0;
        while i < n
            invariant
                n == self@.len(),
                i <= n,
                out@ =~= self@.subrange(0, i as int),
            decreases n - i,
        {
            out.push(self.records[i].clone());
            assert(out@ =~= self@.subrange(0, i + 1 as int));
            i += 1;
        }
        assert(out@ =~= self@);
        out
    }
}

impl DbExecutor {
    /// Snapshot of the audit trail, oldest record first. Reading the
    /// in-memory trail cannot fail.
    pub fn handle_get_logs(&self, _msg: GetLogs) -> (r: Vec<UserLog>)
        ensures
            r@ =~= self.audit@,
    {
        self.audit.get_all()
    }
}

} // verus!
