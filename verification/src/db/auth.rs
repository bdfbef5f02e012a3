//! Credential operations: signup, login, account deactivation, user
//! listing, and the audit write that accompanies every login attempt.
//!
//! Password hashing uses argon2 with fixed, versioned parameters baked
//! into this module (Argon2i, version 0x13, 128 MiB memory cost, time
//! cost 2, one lane, sequential, 32-byte hash), so that verification of
//! old hashes stays stable across deployments. Logins are normalized
//! (compatibility normalization, then lowercasing) before any lookup, so
//! equivalent spellings name the same account.

use vstd::prelude::*;

use unicode_normalization::UnicodeNormalization;

use crate::db::models::{
    has_id, has_login, id_index, login_index, unique_ids, unique_logins, user_with_login, NewUser,
    Role, User, UserDirectory, UserLog,
};
use crate::db::DbExecutor;
use crate::utils::random_bytes;

verus! {

/// The encoded argon2 hash of a password and salt, under this module's
/// fixed parameters. A function of its arguments alone.
pub uninterp spec fn hash_of(password: Seq<u8>, salt: Seq<u8>) -> Seq<char>;

/// What argon2's verification says of an encoded hash and a password:
/// `None` when the encoded text is not a well-formed hash or an input
/// exceeds argon2's length limits, otherwise whether the password
/// matches. A function of its arguments alone.
pub uninterp spec fn verify_of(encoded: Seq<char>, password: Seq<u8>) -> Option<bool>;

/// The compatibility (NFKC) normalization of a text. A function of the
/// characters alone.
pub uninterp spec fn nfkc_of(text: Seq<char>) -> Seq<char>;

/// The Unicode lowercase of a text. A function of the characters alone.
pub uninterp spec fn lower_of(text: Seq<char>) -> Seq<char>;

/// A login as stored and compared: compatibility-normalized, then
/// lowercased.
pub open spec fn normalized_of(name: Seq<char>) -> Seq<char> {
    lower_of(nfkc_of(name))
}

/// Relies on argon2::hash_encoded (rust-argon2) with the fixed parameters
/// above. The encoded result is a function of password and salt alone,
/// and argon2's own verification accepts it with the same password.
/// hash_encoded validates only lengths here: with a salt of 8 to 2^32 - 1
/// bytes and a password of at most 2^32 - 1 bytes it returns Ok.
#[verifier::external_body]
pub(crate) fn argon2_hash(password: &[u8], salt: &[u8]) -> (r: Option<String>)
    ensures
        r is Some ==> r->0@ == hash_of(password@, salt@),
        r is Some ==> verify_of(hash_of(password@, salt@), password@) == Some(true),
        password@.len() <= 0xFFFF_FFFF && 8 <= salt@.len() <= 0xFFFF_FFFF ==> r is Some,
{
    let config = argon2::Config {
        ad: &[],
        hash_length: 32,
        lanes: 1,
        mem_cost: 131072,
        secret: &[],
        thread_mode: argon2::ThreadMode::Sequential,
        time_cost: 2,
        variant: argon2::Variant::Argon2i,
        version: argon2::Version::Version13,
    };
    argon2::hash_encoded(password, salt, &config).ok()
}

/// Relies on argon2::verify_encoded (rust-argon2): reports whether the
/// password matches the encoded hash, or an error on a malformed encoded
/// text or an input beyond argon2's length limits. The outcome is a
/// function of the two arguments alone. The library only ever verifies
/// hashes it stored itself; an adversarial encoded text could name an
/// arbitrary memory cost, so none is accepted from outside.
#[verifier::external_body]
pub(crate) fn argon2_verify(encoded: &str, password: &[u8]) -> (r: Option<bool>)
    ensures
        r == verify_of(encoded@, password@),
{
    argon2::verify_encoded(encoded, password).ok()
}

/// Relies on unicode-normalization's `nfkc`: streams the text through
/// compatibility normalization. The result depends on the characters
/// alone.
#[verifier::external_body]
fn nfkc(text: &str) -> (r: String)
    ensures
        r@ == nfkc_of(text@),
{
    text.nfkc().collect::<String>()
}

/// Relies on str::to_lowercase: the Unicode lowercase of the text,
/// depending on the characters alone.
#[verifier::external_body]
fn to_lowercase(text: &str) -> (r: String)
    ensures
        r@ == lower_of(text@),
{
    text.to_lowercase()
}

/// Normalize a login for storage and comparison.
pub fn normalize_username(name: &str) -> (r: String)
    ensures
        r@ == normalized_of(name@),
{
    let folded = nfkc(name);
    to_lowercase(folded.as_str())
}

/// Request: create a user with this login and password.
pub struct CreateUser {
    pub name: String,
    pub password: Vec<u8>,
}

/// Request: verify these credentials and return the principal; always
/// also writes one audit record.
pub struct Login {
    pub name: String,
    pub password: Vec<u8>,
    pub ip_addr: String,
    pub user_agent: String,
}

/// Request: mark the account with this id inactive.
pub struct DeleteAccount {
    pub id: i32,
}

/// Request: list all principals. Admin-only; the caller gates.
pub struct GetUsers;

/// Failures of credential operations. Authentication failures are
/// deliberately uniform: a wrong password and an unknown login both
/// surface as `InvalidCredentials`.
#[derive(Clone, Copy, PartialEq, Eq, Structural, Debug)]
pub enum Error {
    /// Unknown login, wrong password, or inactive account.
    InvalidCredentials,
    /// Signup named a login that is already taken.
    UserExists,
    /// The requested user does not exist.
    NotFound,
    /// The hasher rejected its input, or a stored hash is malformed.
    HashError,
    /// The store cannot take another row.
    StoreFailure,
}

impl Error {
    /// The HTTP status this error is reported as: bad input for the
    /// credential failures, not-found for a missing user, and an
    /// internal error for hasher or store faults.
    pub fn status_code(&self) -> (code: u16)
        ensures
            code == match *self {
                Error::InvalidCredentials => 400u16,
                Error::UserExists => 400u16,
                Error::NotFound => 404u16,
                Error::HashError => 500u16,
                Error::StoreFailure => 500u16,
            },
    {
        match self {
            Error::InvalidCredentials => 400,
            Error::UserExists => 400,
            Error::NotFound => 404,
            Error::HashError => 500,
            Error::StoreFailure => 500,
        }
    }
}

/// Signup succeeds exactly when the normalized login is free, the
/// password is within the hasher's limit, and the id space has room.
pub open spec fn create_ok(users: UserDirectory, name: Seq<char>, password: Seq<u8>) -> bool {
    &&& !has_login(users@, normalized_of(name))
    &&& password.len() <= 0xFFFF_FFFF
    &&& users.has_capacity()
}

/// Which error a failing signup returns.
pub open spec fn create_err(users: UserDirectory, name: Seq<char>, password: Seq<u8>) -> Error {
    if has_login(users@, normalized_of(name)) {
        Error::UserExists
    } else if password.len() > 0xFFFF_FFFF {
        Error::HashError
    } else {
        Error::StoreFailure
    }
}

/// What a successful signup leaves behind: the old table plus one fresh,
/// active customer under the normalized login, whose stored hash was
/// derived from the password with a 16-byte random salt and verifies
/// against that password.
pub open spec fn users_after_create(
    pre: UserDirectory,
    post: UserDirectory,
    name: Seq<char>,
    password: Seq<u8>,
) -> bool {
    &&& post@.len() == pre@.len() + 1
    &&& post@.drop_last() =~= pre@
    &&& post@.last().login@ == normalized_of(name)
    &&& post@.last().role is Customer
    &&& post@.last().active
    &&& post@.last().id == pre.next_id()
    &&& verify_of(post@.last().hash@, password) == Some(true)
    &&& (exists|salt: Seq<u8>| salt.len() == 16 && post@.last().hash@ == hash_of(password, salt))
    &&& post.next_id() == pre.next_id() + 1
}

/// Login succeeds exactly when the normalized login names a user that is
/// active and whose stored hash verifies against the password.
pub open spec fn login_ok(users: Seq<User>, name: Seq<char>, password: Seq<u8>) -> bool {
    &&& has_login(users, normalized_of(name))
    &&& user_with_login(users, normalized_of(name)).active
    &&& verify_of(user_with_login(users, normalized_of(name)).hash@, password) == Some(true)
}

/// Which error a failing login returns: a malformed stored hash of an
/// active account surfaces as `HashError`, every other failure as
/// `InvalidCredentials`, so that callers cannot tell an unknown login
/// from a wrong password.
pub open spec fn login_err(users: Seq<User>, name: Seq<char>, password: Seq<u8>) -> Error {
    if has_login(users, normalized_of(name))
        && user_with_login(users, normalized_of(name)).active
        && verify_of(user_with_login(users, normalized_of(name)).hash@, password) is None {
        Error::HashError
    } else {
        Error::InvalidCredentials
    }
}

/// Exactly one audit record is appended by a login call: it carries the
/// normalized login, the caller's address and agent, the given time, and
/// whether the attempt succeeded.
pub open spec fn login_attempt_recorded(
    pre: Seq<UserLog>,
    post: Seq<UserLog>,
    name: Seq<char>,
    password: Seq<u8>,
    ip_addr: Seq<char>,
    user_agent: Seq<char>,
    now: i64,
    users: Seq<User>,
) -> bool {
    &&& post.len() == pre.len() + 1
    &&& post.drop_last() =~= pre
    &&& post.last().login@ == normalized_of(name)
    &&& post.last().logging_time == now
    &&& post.last().logging_succession == login_ok(users, name, password)
    &&& post.last().ip_addr@ == ip_addr
    &&& post.last().user_agent@ == user_agent
}

/// What account deactivation leaves behind: the same table with the
/// matching user, if any, marked inactive; nothing else moves.
pub open spec fn users_after_delete(pre: Seq<User>, post: Seq<User>, id: i32) -> bool {
    if has_id(pre, id) {
        post =~= pre.update(
            id_index(pre, id),
            (User {
                id,
                login: pre[id_index(pre, id)].login,
                hash: pre[id_index(pre, id)].hash,
                role: pre[id_index(pre, id)].role,
                active: false,
            }),
        )
    } else {
        post =~= pre
    }
}

impl DbExecutor {
    /// Create a fresh, active customer account, unless the normalized
    /// login is already taken. The password is salted with 16 random
    /// bytes and hashed; only the encoded hash is stored.
    pub fn handle_create_user(&mut self, msg: CreateUser) -> (r: Result<(), Error>)
        requires
            old(self).wf(),
        ensures
            final(self).wf(),
            final(self).audit == old(self).audit,
            r is Ok <==> create_ok(old(self).users, msg.name@, msg.password@),
            r is Ok ==> users_after_create(
                old(self).users,
                final(self).users,
                msg.name@,
                msg.password@,
            ),
            r is Err ==> final(self).users == old(self).users,
            r is Err ==> r->Err_0 == create_err(old(self).users, msg.name@, msg.password@),
    {
        let username = normalize_username(msg.name.as_str());

        if self.users.find_by_login(&username).is_some() {
            return Err(Error::UserExists);
        }
        if msg.password.len() > 0xFFFF_FFFFusize {
            return Err(Error::HashError);
        }
        if !self.users.capacity_left() {
            return Err(Error::StoreFailure);
        }

        let salt = random_bytes(16);
        let hash = match argon2_hash(msg.password.as_slice(), salt.as_slice()) {
            Some(h) => h,
            None => {
                // unreachable: the wrapper promises a hash for inputs
                // within the length limits checked above
                assert(false);
                return Err(Error::HashError);
            },
        };

        let row = NewUser { login: username, hash, role: Role::Customer };
        self.users.add_user(row);
        Ok(())
    }

    /// Verify credentials and return the principal snapshot. Exactly one
    /// audit record is written, whatever the outcome; `now` is the
    /// wall-clock time the record carries.
    pub fn handle_login(&mut self, msg: Login, now: i64) -> (r: Result<User, Error>)
        requires
            old(self).wf(),
        ensures
            final(self).wf(),
            final(self).users == old(self).users,
            login_attempt_recorded(
                old(self).audit@,
                final(self).audit@,
                msg.name@,
                msg.password@,
                msg.ip_addr@,
                msg.user_agent@,
                now,
                old(self).users@,
            ),
            r is Ok <==> login_ok(old(self).users@, msg.name@, msg.password@),
            r is Ok ==> r->Ok_0 == user_with_login(old(self).users@, normalized_of(msg.name@)),
            r is Err ==> r->Err_0 == login_err(old(self).users@, msg.name@, msg.password@),
    {
        let username = normalize_username(msg.name.as_str());

        let user_opt = match self.users.find_by_login(&username) {
            Some(u) => Some(u.clone()),
            None => None,
        };

        let (succeeded, outcome): (bool, Result<User, Error>) = match user_opt {
            None => (false, Err(Error::InvalidCredentials)),
            Some(user) => {
                if !user.active {
                    (false, Err(Error::InvalidCredentials))
                } else {
                    match argon2_verify(user.hash.as_str(), msg.password.as_slice()) {
                        None => (false, Err(Error::HashError)),
                        Some(matched) => {
                            if matched {
                                (true, Ok(user))
                            } else {
                                (false, Err(Error::InvalidCredentials))
                            }
                        },
                    }
                }
            },
        };

        self.audit.append(
            UserLog {
                login: username,
                logging_time: now,
                logging_succession: succeeded,
                ip_addr: msg.ip_addr,
                user_agent: msg.user_agent,
            },
        );
        outcome
    }

    /// Mark the account with this id inactive. A miss changes nothing
    /// and still reports success, mirroring an unconditional update.
    pub fn handle_delete_account(&mut self, msg: DeleteAccount) -> (r: Result<(), Error>)
        requires
            old(self).wf(),
        ensures
            final(self).wf(),
            final(self).audit == old(self).audit,
            r is Ok,
            users_after_delete(old(self).users@, final(self).users@, msg.id),
            final(self).users.next_id() == old(self).users.next_id(),
    {
        self.users.deactivate(msg.id);
        Ok(())
    }

    /// Snapshot of all principals, in insertion order.
    pub fn handle_get_users(&self, _msg: GetUsers) -> (r: Result<Vec<User>, Error>)
        ensures
            r is Ok,
            r->Ok_0@ =~= self.users@,
    {
        Ok(self.users.get_all())
    }
}

/// Law: an account just created by signup accepts a login with the same
/// password, under any spelling of the login that normalizes the same
/// way.
pub proof fn lemma_signup_then_login(
    pre: UserDirectory,
    post: UserDirectory,
    name: Seq<char>,
    password: Seq<u8>,
    attempt_name: Seq<char>,
)
    requires
        pre.wf(),
        post.wf(),
        !has_login(pre@, normalized_of(name)),
        users_after_create(pre, post, name, password),
        normalized_of(attempt_name) == normalized_of(name),
    ensures
        login_ok(post@, attempt_name, password),
{
    let norm = normalized_of(name);
    let last = post@.len() - 1;
    assert(post@[last].login@ == norm);
    assert(has_login(post@, norm));
    let j = login_index(post@, norm);
    assert(0 <= j < post@.len() && post@[j].login@ == norm);
    assert(unique_logins(post@));
    assert(j == last);
    assert(user_with_login(post@, norm) == post@[last]);
}

/// Law: a login with a wrong password or a nonexistent login fails with
/// `InvalidCredentials`, and exactly one audit record is appended, marked
/// unsuccessful.
pub proof fn lemma_failed_login_audited(
    users: UserDirectory,
    pre_audit: Seq<UserLog>,
    post_audit: Seq<UserLog>,
    name: Seq<char>,
    password: Seq<u8>,
    ip_addr: Seq<char>,
    user_agent: Seq<char>,
    now: i64,
    r: Result<User, Error>,
)
    requires
        users.wf(),
        !has_login(users@, normalized_of(name)) || (user_with_login(
            users@,
            normalized_of(name),
        ).active && verify_of(user_with_login(users@, normalized_of(name)).hash@, password)
            == Some(false)),
        login_attempt_recorded(pre_audit, post_audit, name, password, ip_addr, user_agent, now, users@),
        r is Ok <==> login_ok(users@, name, password),
        r is Err ==> r->Err_0 == login_err(users@, name, password),
    ensures
        r == Err::<User, Error>(Error::InvalidCredentials),
        post_audit.len() == pre_audit.len() + 1,
        post_audit.drop_last() =~= pre_audit,
        !post_audit.last().logging_succession,
{
    assert(!login_ok(users@, name, password));
    assert(login_err(users@, name, password) == Error::InvalidCredentials);
}

/// Law: after an account is deactivated, a new login attempt for it
/// fails with `InvalidCredentials`, whatever the password. Sessions
/// already issued live in the session store, which deactivation does not
/// touch.
pub proof fn lemma_deactivation_blocks_new_login(
    pre: UserDirectory,
    post: UserDirectory,
    id: i32,
    name: Seq<char>,
    password: Seq<u8>,
)
    requires
        pre.wf(),
        post.wf(),
        users_after_delete(pre@, post@, id),
        has_login(pre@, normalized_of(name)),
        user_with_login(pre@, normalized_of(name)).id == id,
    ensures
        !login_ok(post@, name, password),
        login_err(post@, name, password) == Error::InvalidCredentials,
{
    let norm = normalized_of(name);
    let li = login_index(pre@, norm);
    assert(0 <= li < pre@.len() && pre@[li].login@ == norm);
    assert(has_id(pre@, id));
    let ki = id_index(pre@, id);
    assert(0 <= ki < pre@.len() && pre@[ki].id == id);
    assert(unique_ids(pre@));
    assert(ki == li);
    assert(post@[li].login@ == norm);
    assert(has_login(post@, norm));
    let j = login_index(post@, norm);
    assert(0 <= j < post@.len() && post@[j].login@ == norm);
    assert(unique_logins(post@));
    assert(j == li);
    assert(!post@[li].active);
    assert(user_with_login(post@, norm) == post@[li]);
}

} // verus!
