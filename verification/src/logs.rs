//! Admin-only view of the audit trail.
//!
//! The raw records carry the normalized login, timestamp, outcome,
//! address and user-agent string; the reporting boundary outside this
//! crate enriches the user-agent into browser and operating-system names
//! before display.

use vstd::prelude::*;

use crate::auth::{Auth, AuthError};
use crate::db::models::UserLog;
use crate::db::DbExecutor;

verus! {

/// Return the whole audit trail, oldest record first. Requires an
/// administrator.
pub fn logs(auth: &Auth, db: &DbExecutor) -> (r: Result<Vec<UserLog>, AuthError>)
    ensures
        r is Ok <==> auth.is_admin,
        !auth.is_admin ==> r == Err::<Vec<UserLog>, AuthError>(AuthError::Forbidden),
        auth.is_admin ==> r->Ok_0@ =~= db.audit@,
{
    if !auth.is_admin {
        return Err(AuthError::Forbidden);
    }
    Ok(db.audit.get_all())
}

} // verus!
