use szaklon::auth::{login, signup, Auth, LoginData};
use szaklon::db::auth::{normalize_username, DeleteAccount, Error};
use szaklon::db::models::NewUser;
use szaklon::db::models::Role;
use szaklon::db::DbExecutor;
use szaklon::session::SessionStore;

fn creds(login: &str, password: &str) -> LoginData {
    LoginData { login: String::from(login), password: String::from(password) }
}

fn attempt(
    data: LoginData,
    db: &mut DbExecutor,
    sessions: &mut SessionStore,
) -> Result<szaklon::auth::LoginResponse, Error> {
    login(data, String::from("127.0.0.1"), String::from("tests"), 1_700_000_000_000, db, sessions)
}

#[test]
fn signup_then_login_succeeds_with_fresh_token() {
    let mut db = DbExecutor::new();
    let mut sessions = SessionStore::new();

    signup(creds("ada", "correct horse"), &mut db).expect("fresh login name");

    let first = attempt(creds("ada", "correct horse"), &mut db, &mut sessions)
        .expect("same credentials must log in");
    assert!(!first.is_admin);
    assert!(!first.token.is_empty());

    let second = attempt(creds("ada", "correct horse"), &mut db, &mut sessions)
        .expect("a second login is independent");
    // a fresh token on every login, never a repeat of an issued one
    assert_ne!(first.token, second.token);
    assert_eq!(sessions.len(), 2);
}

#[test]
fn login_of_unknown_user_fails_and_is_audited() {
    let mut db = DbExecutor::new();
    let mut sessions = SessionStore::new();

    let r = attempt(creds("nobody", "whatever"), &mut db, &mut sessions);
    assert!(matches!(r, Err(Error::InvalidCredentials)));

    assert_eq!(db.audit.len(), 1);
    let rec = &db.audit.records()[0];
    assert_eq!(rec.login, "nobody");
    assert!(!rec.logging_succession);
    assert_eq!(rec.ip_addr, "127.0.0.1");
    assert_eq!(rec.user_agent, "tests");
    assert_eq!(rec.logging_time, 1_700_000_000_000);
    assert_eq!(sessions.len(), 0);
}

#[test]
fn login_with_wrong_password_fails_and_is_audited() {
    let mut db = DbExecutor::new();
    let mut sessions = SessionStore::new();

    signup(creds("ada", "right"), &mut db).expect("fresh login name");
    let r = attempt(creds("ada", "wrong"), &mut db, &mut sessions);
    assert!(matches!(r, Err(Error::InvalidCredentials)));

    assert_eq!(db.audit.len(), 1);
    let rec = &db.audit.records()[0];
    assert_eq!(rec.login, "ada");
    assert!(!rec.logging_succession);
    assert_eq!(sessions.len(), 0);
}

#[test]
fn duplicate_signup_is_rejected_even_across_spellings() {
    let mut db = DbExecutor::new();
    signup(creds("Ada", "pw one"), &mut db).expect("fresh login name");
    // the duplicate check runs on the normalized login, before any hashing
    let r = signup(creds("ADA", "pw two"), &mut db);
    assert!(matches!(r, Err(Error::UserExists)));
    assert_eq!(db.users.len(), 1);
}

#[test]
fn normalization_examples() {
    assert_eq!(normalize_username("Ärger"), "ärger");
    // fullwidth compatibility characters fold to their plain forms
    assert_eq!(normalize_username("ＡＢＣ"), "abc");
    assert_eq!(normalize_username("ada"), "ada");
}

#[test]
fn login_is_normalization_insensitive() {
    let mut db = DbExecutor::new();
    let mut sessions = SessionStore::new();

    signup(creds("Ärger", "hunter2"), &mut db).expect("fresh login name");
    let r = attempt(creds("ärger", "hunter2"), &mut db, &mut sessions)
        .expect("equivalent spelling must log in");
    assert!(!r.is_admin);
}

#[test]
fn deactivation_leaves_stale_session_but_blocks_new_login() {
    let mut db = DbExecutor::new();
    let mut sessions = SessionStore::new();

    signup(creds("ada", "hunter2"), &mut db).expect("fresh login name");
    let live = attempt(creds("ada", "hunter2"), &mut db, &mut sessions).expect("first login");

    // deactivate while the session is live; the session store is untouched
    let id = db.users.find_by_login(&String::from("ada")).expect("user exists").id;
    db.handle_delete_account(DeleteAccount { id }).expect("deactivation reports success");

    // the live session still resolves to the snapshot taken at login time
    let auth = Auth::extract(Some(live.token.as_str()), &sessions).expect("stale session lives");
    assert_eq!(auth.username, "ada");

    // but a fresh login now fails like any bad credential
    let r = attempt(creds("ada", "hunter2"), &mut db, &mut sessions);
    assert!(matches!(r, Err(Error::InvalidCredentials)));
}

#[test]
fn malformed_stored_hash_surfaces_as_hash_error() {
    let mut db = DbExecutor::new();
    let mut sessions = SessionStore::new();

    // a row whose hash is not an encoded argon2 string
    db.users.add_user(NewUser {
        login: String::from("broken"),
        hash: String::from("not-an-encoded-hash"),
        role: Role::Customer,
    });
    let r = attempt(creds("broken", "whatever"), &mut db, &mut sessions);
    assert!(matches!(r, Err(Error::HashError)));
    // the attempt is still audited
    assert_eq!(db.audit.len(), 1);
    assert!(!db.audit.records()[0].logging_succession);
}

#[test]
fn credential_error_status_codes() {
    assert_eq!(Error::InvalidCredentials.status_code(), 400);
    assert_eq!(Error::UserExists.status_code(), 400);
    assert_eq!(Error::NotFound.status_code(), 404);
    assert_eq!(Error::HashError.status_code(), 500);
    assert_eq!(Error::StoreFailure.status_code(), 500);
}
