//! Authorization guard and the account flows built on it.
//!
//! `Auth::extract` is the per-request identity extractor: it reads the
//! `Authorization` header value, decodes the token, and resolves it
//! against the session store, distinguishing a missing credential from a
//! malformed one and from an unknown session. Role checks are a separate
//! gate performed by the operations that need them, so the extractor
//! stays a pure identity reader.

use vstd::prelude::*;

use vstd::string::StrSliceExecFns;
use vstd::utf8::encode_utf8;

use crate::db::auth::{
    create_err, create_ok, login_attempt_recorded, login_err, login_ok, normalized_of,
    users_after_create, users_after_delete, CreateUser, DeleteAccount, Error, GetUsers, Login,
};
use crate::db::models::{user_with_login, Role, User};
use crate::db::DbExecutor;
use crate::session::{
    b64_of, has_token, revoked_for_principal, spec_lookup, spec_revoke, token_decoded_of,
    SessionStore, SessionToken, TOKEN_SIZE,
};

verus! {

/// Credentials of a login or signup request.
pub struct LoginData {
    pub login: String,
    pub password: String,
}

/// Successful login: the wire token to put into the `Authorization`
/// header, and whether the principal is an administrator.
pub struct LoginResponse {
    pub token: String,
    pub is_admin: bool,
}

/// Authorization failures. The first three come from the extractor and
/// mean "not authenticated"; `Forbidden` is the separate role gate for
/// operations that require an administrator.
#[derive(Clone, Copy, PartialEq, Eq, Structural, Debug)]
pub enum AuthError {
    /// No `Authorization` header was sent.
    MissingCredentials,
    /// The header is not base64, or decodes to a wrong length.
    MalformedToken,
    /// The decoded token proves no live session.
    SessionNotFound,
    /// Authenticated, but not an administrator.
    Forbidden,
}

impl AuthError {
    /// The HTTP status this failure is reported as: the two
    /// not-authenticated cases are unauthorized, a garbled header is bad
    /// input, and a failed role gate is forbidden.
    pub fn status_code(&self) -> (code: u16)
        ensures
            code == match *self {
                AuthError::MissingCredentials => 401u16,
                AuthError::MalformedToken => 400u16,
                AuthError::SessionNotFound => 401u16,
                AuthError::Forbidden => 403u16,
            },
    {
        match self {
            AuthError::MissingCredentials => 401,
            AuthError::MalformedToken => 400,
            AuthError::SessionNotFound => 401,
            AuthError::Forbidden => 403,
        }
    }
}

/// The identity a request proved: the raw token it presented and the
/// principal snapshot taken at login time.
pub struct Auth {
    pub token: SessionToken,
    pub is_admin: bool,
    pub username: String,
    pub id: i32,
}

impl Auth {
    /// Extract the principal a request proves. Fails with
    /// `MissingCredentials` without a header, `MalformedToken` when the
    /// header is not base64 of exactly `TOKEN_SIZE` bytes, and
    /// `SessionNotFound` when the token proves no live session;
    /// otherwise yields the stored snapshot with its derived admin flag.
    pub fn extract(header: Option<&str>, sessions: &SessionStore) -> (r: Result<Auth, AuthError>)
        requires
            sessions.wf(),
        ensures
            header is None ==> r == Err::<Auth, AuthError>(AuthError::MissingCredentials),
            header is Some && token_decoded_of(header->0@) is None ==> r == Err::<
                Auth,
                AuthError,
            >(AuthError::MalformedToken),
            header is Some && token_decoded_of(header->0@) is Some && spec_lookup(
                sessions@,
                token_decoded_of(header->0@)->0,
            ) is None ==> r == Err::<Auth, AuthError>(AuthError::SessionNotFound),
            header is Some && token_decoded_of(header->0@) is Some && spec_lookup(
                sessions@,
                token_decoded_of(header->0@)->0,
            ) is Some ==> {
                let token = token_decoded_of(header->0@)->0;
                let user = spec_lookup(sessions@, token)->0;
                &&& r is Ok
                &&& r->Ok_0.token@ == token
                &&& r->Ok_0.is_admin == (user.role is Admin)
                &&& r->Ok_0.username@ == user.login@
                &&& r->Ok_0.id == user.id
            },
    {
        match header {
            None => Err(AuthError::MissingCredentials),
            Some(text) => match SessionToken::decode(text) {
                None => Err(AuthError::MalformedToken),
                Some(token) => match sessions.lookup(&token) {
                    None => Err(AuthError::SessionNotFound),
                    Some(user) => Ok(
                        Auth {
                            token,
                            is_admin: user.role == Role::Admin,
                            username: user.login,
                            id: user.id,
                        },
                    ),
                },
            },
        }
    }
}

/// Log in: verify the credentials, record the attempt in the audit
/// trail, and on success issue a fresh session token for the principal
/// snapshot. An unknown login, a wrong password and an inactive account
/// all fail alike with `InvalidCredentials`. `ip_addr` and `user_agent`
/// describe the caller; `now` is the wall-clock time for the audit
/// record.
pub fn login(
    data: LoginData,
    ip_addr: String,
    user_agent: String,
    now: i64,
    db: &mut DbExecutor,
    sessions: &mut SessionStore,
) -> (r: Result<LoginResponse, Error>)
    requires
        old(db).wf(),
        old(sessions).wf(),
    ensures
        final(db).wf(),
        final(sessions).wf(),
        final(db).users == old(db).users,
        login_attempt_recorded(
            old(db).audit@,
            final(db).audit@,
            data.login@,
            encode_utf8(data.password@),
            ip_addr@,
            user_agent@,
            now,
            old(db).users@,
        ),
        r is Ok <==> login_ok(old(db).users@, data.login@, encode_utf8(data.password@)),
        r is Err ==> r->Err_0 == login_err(
            old(db).users@,
            data.login@,
            encode_utf8(data.password@),
        ),
        r is Err ==> final(sessions)@ =~= old(sessions)@,
        r is Ok ==> {
            let user = user_with_login(old(db).users@, normalized_of(data.login@));
            &&& r->Ok_0.is_admin == (user.role is Admin)
            &&& exists|t: Seq<u8>|
                {
                    &&& t.len() == TOKEN_SIZE
                    &&& r->Ok_0.token@ == b64_of(t)
                    &&& spec_lookup(final(sessions)@, t) == Some(user)
                    &&& (forall|t2: Seq<u8>|
                        t2 != t ==> spec_lookup(final(sessions)@, t2) == spec_lookup(
                            old(sessions)@,
                            t2,
                        ))
                }
        },
{
    let password = data.password.as_str().as_bytes_vec();
    let msg = Login { name: data.login, password, ip_addr, user_agent };
    match db.handle_login(msg, now) {
        Ok(user) => {
            let is_admin = user.role == Role::Admin;
            let token = sessions.issue(user);
            let encoded = token.encode();
            Ok(LoginResponse { token: encoded, is_admin })
        },
        Err(e) => Err(e),
    }
}

/// Sign up: create a fresh, active customer account, unless the
/// normalized login is already taken.
pub fn signup(data: LoginData, db: &mut DbExecutor) -> (r: Result<(), Error>)
    requires
        old(db).wf(),
    ensures
        final(db).wf(),
        final(db).audit == old(db).audit,
        r is Ok <==> create_ok(old(db).users, data.login@, encode_utf8(data.password@)),
        r is Ok ==> users_after_create(
            old(db).users,
            final(db).users,
            data.login@,
            encode_utf8(data.password@),
        ),
        r is Err ==> final(db).users == old(db).users,
        r is Err ==> r->Err_0 == create_err(
            old(db).users,
            data.login@,
            encode_utf8(data.password@),
        ),
{
    let password = data.password.as_str().as_bytes_vec();
    let msg = CreateUser { name: data.login, password };
    db.handle_create_user(msg)
}

/// Log out: end the session the request proved. Revoking an already
/// absent token is a no-op, so logout always succeeds.
pub fn logout(auth: Auth, sessions: &mut SessionStore) -> (r: Result<(), AuthError>)
    requires
        old(sessions).wf(),
    ensures
        final(sessions).wf(),
        final(sessions)@ =~= spec_revoke(old(sessions)@, auth.token@),
        !has_token(final(sessions)@, auth.token@),
        r is Ok,
{
    sessions.revoke(&auth.token);
    Ok(())
}

/// List all principals. Requires an administrator; the stored hash never
/// leaves the crate boundary in serialized form, which the boundary
/// layer enforces by converting to a hash-free wire type.
pub fn users(auth: &Auth, db: &DbExecutor) -> (r: Result<Vec<User>, AuthError>)
    ensures
        r is Ok <==> auth.is_admin,
        !auth.is_admin ==> r == Err::<Vec<User>, AuthError>(AuthError::Forbidden),
        auth.is_admin ==> r->Ok_0@ =~= db.users@,
{
    if !auth.is_admin {
        return Err(AuthError::Forbidden);
    }
    match db.handle_get_users(GetUsers) {
        Ok(list) => Ok(list),
        Err(_) => Err(AuthError::Forbidden),
    }
}

/// Delete the caller's own account: mark it inactive and end the
/// caller's session. The audit trail is untouched.
pub fn delete_account(auth: Auth, db: &mut DbExecutor, sessions: &mut SessionStore) -> (r: Result<
    (),
    Error,
>)
    requires
        old(db).wf(),
        old(sessions).wf(),
    ensures
        final(db).wf(),
        final(sessions).wf(),
        final(db).audit == old(db).audit,
        users_after_delete(old(db).users@, final(db).users@, auth.id),
        final(sessions)@ =~= spec_revoke(old(sessions)@, auth.token@),
        !has_token(final(sessions)@, auth.token@),
        r is Ok,
{
    let msg = DeleteAccount { id: auth.id };
    let deleted = db.handle_delete_account(msg);
    match deleted {
        Ok(_) => (),
        Err(_) => (),
    }
    sessions.revoke(&auth.token);
    Ok(())
}

/// Delete another account by id: admin only. Marks the account inactive
/// and revokes the first live session that principal holds, if any.
pub fn delete_account_admin(
    id: i32,
    auth: &Auth,
    db: &mut DbExecutor,
    sessions: &mut SessionStore,
) -> (r: Result<(), AuthError>)
    requires
        old(db).wf(),
        old(sessions).wf(),
    ensures
        final(db).wf(),
        final(sessions).wf(),
        final(db).audit == old(db).audit,
        r is Ok <==> auth.is_admin,
        !auth.is_admin ==> {
            &&& r == Err::<(), AuthError>(AuthError::Forbidden)
            &&& final(db).users == old(db).users
            &&& final(sessions)@ =~= old(sessions)@
        },
        auth.is_admin ==> {
            &&& users_after_delete(old(db).users@, final(db).users@, id)
            &&& revoked_for_principal(old(sessions)@, final(sessions)@, id)
        },
{
    if !auth.is_admin {
        return Err(AuthError::Forbidden);
    }
    let msg = DeleteAccount { id };
    let deleted = db.handle_delete_account(msg);
    match deleted {
        Ok(_) => (),
        Err(_) => (),
    }
    sessions.revoke_by_principal_id(id);
    Ok(())
}

/// Confirm that the request proved a live session. The extractor did
/// all the work; this endpoint only reports success.
pub fn check_session(_auth: Auth) {
}

} // verus!
