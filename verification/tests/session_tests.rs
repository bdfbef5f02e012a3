use szaklon::db::models::{Role, User};
use szaklon::session::{SessionStore, SessionToken, TOKEN_SIZE};

fn customer(id: i32, login: &str) -> User {
    User {
        id,
        login: String::from(login),
        hash: String::from("opaque"),
        role: Role::Customer,
        active: true,
    }
}

#[test]
fn token_round_trip() {
    let token = SessionToken { bytes: (0u8..32).collect() };
    let wire = token.encode();
    let back = SessionToken::decode(wire.as_str()).expect("well-formed wire token must decode");
    assert_eq!(back.bytes, token.bytes);
}

#[test]
fn token_encode_exact_value() {
    let token = SessionToken { bytes: vec![0u8; TOKEN_SIZE] };
    let wire = token.encode();
    let expected: String = {
        let mut s = String::new();
        for _ in 0..43 {
            s.push('A');
        }
        s.push('=');
        s
    };
    assert_eq!(wire, expected);
}

#[test]
fn token_decode_rejects_malformed_base64() {
    assert!(SessionToken::decode("!!! not base64 !!!").is_none());
}

#[test]
fn token_decode_rejects_wrong_length() {
    // "AAAA" is well-formed base64 but decodes to 3 bytes, not 32.
    assert!(SessionToken::decode("AAAA").is_none());
    // 31 bytes of zeroes, also well-formed, also the wrong length.
    let short = SessionToken { bytes: vec![0u8; 31] };
    assert!(SessionToken::decode(short.encode().as_str()).is_none());
}

#[test]
fn issue_then_lookup_returns_snapshot() {
    let mut store = SessionStore::new();
    let token = store.issue(customer(7, "ada"));
    assert_eq!(token.bytes.len(), TOKEN_SIZE);
    let user = store.lookup(&token).expect("issued token must be live");
    assert_eq!(user.id, 7);
    assert_eq!(user.login, "ada");
    assert!(user.active);
}

#[test]
fn revoke_removes_and_is_idempotent() {
    let mut store = SessionStore::new();
    let token = store.issue(customer(1, "ada"));
    assert_eq!(store.len(), 1);

    store.revoke(&token);
    assert!(store.lookup(&token).is_none());
    assert_eq!(store.len(), 0);

    // a second revocation of the same token is a no-op
    store.revoke(&token);
    assert!(store.lookup(&token).is_none());
    assert_eq!(store.len(), 0);
}

#[test]
fn concurrent_sessions_distinct_and_independently_revocable() {
    let mut store = SessionStore::new();
    let t1 = store.issue(customer(1, "ada"));
    let t2 = store.issue(customer(2, "bob"));
    let t3 = store.issue(customer(3, "cyd"));
    assert_eq!(store.len(), 3);
    assert_ne!(t1.bytes, t2.bytes);
    assert_ne!(t1.bytes, t3.bytes);
    assert_ne!(t2.bytes, t3.bytes);

    store.revoke(&t2);
    assert!(store.lookup(&t2).is_none());
    assert_eq!(store.lookup(&t1).expect("t1 stays live").id, 1);
    assert_eq!(store.lookup(&t3).expect("t3 stays live").id, 3);

    store.revoke(&t1);
    assert!(store.lookup(&t1).is_none());
    assert_eq!(store.lookup(&t3).expect("t3 still live").id, 3);
}

#[test]
fn insert_replaces_session_under_same_token() {
    let mut store = SessionStore::new();
    let token = SessionToken { bytes: vec![9u8; TOKEN_SIZE] };
    store.insert(token.duplicate(), customer(1, "ada"));
    store.insert(token.duplicate(), customer(2, "bob"));
    assert_eq!(store.len(), 1);
    assert_eq!(store.lookup(&token).expect("token live").id, 2);
}

#[test]
fn multiple_logins_same_principal_both_live() {
    let mut store = SessionStore::new();
    let t1 = store.issue(customer(5, "ada"));
    let t2 = store.issue(customer(5, "ada"));
    assert_eq!(store.len(), 2);
    assert_eq!(store.lookup(&t1).expect("first device").id, 5);
    assert_eq!(store.lookup(&t2).expect("second device").id, 5);
}

#[test]
fn revoke_by_principal_id_takes_first_session_only() {
    let mut store = SessionStore::new();
    let t1 = store.issue(customer(5, "ada"));
    let t2 = store.issue(customer(5, "ada"));
    let t3 = store.issue(customer(6, "bob"));

    store.revoke_by_principal_id(5);
    assert_eq!(store.len(), 2);
    assert!(store.lookup(&t1).is_none());
    assert_eq!(store.lookup(&t2).expect("second session stays").id, 5);
    assert_eq!(store.lookup(&t3).expect("other principal stays").id, 6);

    // no session for this id: nothing changes
    store.revoke_by_principal_id(99);
    assert_eq!(store.len(), 2);
}
