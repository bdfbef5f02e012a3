use szaklon::auth::{check_session, logout, users, Auth, AuthError};
use szaklon::db::models::{Role, User};
use szaklon::db::DbExecutor;
use szaklon::session::{SessionStore, SessionToken, TOKEN_SIZE};
use szaklon::utils::PerfLog;

fn principal(id: i32, login: &str, role: Role) -> User {
    User { id, login: String::from(login), hash: String::from("opaque"), role, active: true }
}

#[test]
fn extract_without_header_is_missing_credentials() {
    let store = SessionStore::new();
    let r = Auth::extract(None, &store);
    assert!(matches!(r, Err(AuthError::MissingCredentials)));
}

#[test]
fn extract_with_malformed_header_is_malformed_token() {
    let store = SessionStore::new();
    let r = Auth::extract(Some("%%% not base64"), &store);
    assert!(matches!(r, Err(AuthError::MalformedToken)));
    // well-formed base64 of the wrong decoded length is malformed too
    let r = Auth::extract(Some("AAAA"), &store);
    assert!(matches!(r, Err(AuthError::MalformedToken)));
}

#[test]
fn extract_with_unknown_token_is_session_not_found() {
    let store = SessionStore::new();
    let stray = SessionToken { bytes: vec![1u8; TOKEN_SIZE] };
    let r = Auth::extract(Some(stray.encode().as_str()), &store);
    assert!(matches!(r, Err(AuthError::SessionNotFound)));
}

#[test]
fn extract_returns_snapshot_and_admin_flag() {
    let mut store = SessionStore::new();
    let token = store.issue(principal(3, "root", Role::Admin));
    let header = token.encode();
    let auth = Auth::extract(Some(header.as_str()), &store).expect("live session");
    assert!(auth.is_admin);
    assert_eq!(auth.username, "root");
    assert_eq!(auth.id, 3);
    assert_eq!(auth.token.bytes, token.bytes);
    check_session(auth);
}

#[test]
fn logout_ends_the_session() {
    let mut store = SessionStore::new();
    let token = store.issue(principal(1, "ada", Role::Customer));
    let header = token.encode();
    let auth = Auth::extract(Some(header.as_str()), &store).expect("live session");
    assert!(logout(auth, &mut store).is_ok());
    assert!(store.lookup(&token).is_none());
    // the token no longer authenticates
    let r = Auth::extract(Some(header.as_str()), &store);
    assert!(matches!(r, Err(AuthError::SessionNotFound)));
}

#[test]
fn users_requires_admin() {
    let mut db = DbExecutor::new();
    let mut store = SessionStore::new();
    db.users.add_user(szaklon::db::models::NewUser {
        login: String::from("ada"),
        hash: String::from("opaque"),
        role: Role::Customer,
    });

    let customer_token = store.issue(principal(1, "ada", Role::Customer));
    let header = customer_token.encode();
    let auth = Auth::extract(Some(header.as_str()), &store).expect("live session");
    assert!(matches!(users(&auth, &db), Err(AuthError::Forbidden)));

    let admin_token = store.issue(principal(2, "root", Role::Admin));
    let header = admin_token.encode();
    let auth = Auth::extract(Some(header.as_str()), &store).expect("live session");
    let list = users(&auth, &db).expect("admin may list");
    assert_eq!(list.len(), 1);
    assert_eq!(list[0].login, "ada");
}

#[test]
fn logs_requires_admin() {
    let db = DbExecutor::new();
    let mut store = SessionStore::new();
    let token = store.issue(principal(1, "ada", Role::Customer));
    let header = token.encode();
    let auth = Auth::extract(Some(header.as_str()), &store).expect("live session");
    assert!(matches!(szaklon::logs::logs(&auth, &db), Err(AuthError::Forbidden)));

    let token = store.issue(principal(2, "root", Role::Admin));
    let header = token.encode();
    let auth = Auth::extract(Some(header.as_str()), &store).expect("live session");
    let records = szaklon::logs::logs(&auth, &db).expect("admin may read the trail");
    assert!(records.is_empty());
}

#[test]
fn perf_log_reports_nonnegative_elapsed() {
    let p = PerfLog::new();
    let elapsed = p.log("noop");
    assert!(elapsed >= 0);
}

#[test]
fn auth_error_status_codes() {
    assert_eq!(AuthError::MissingCredentials.status_code(), 401);
    assert_eq!(AuthError::MalformedToken.status_code(), 400);
    assert_eq!(AuthError::SessionNotFound.status_code(), 401);
    assert_eq!(AuthError::Forbidden.status_code(), 403);
}
