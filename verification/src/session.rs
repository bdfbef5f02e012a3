//! Opaque session tokens and the process-wide session store.
//!
//! A token is 32 random bytes from a cryptographically secure generator,
//! carried on the wire as standard base64. The store maps tokens to the
//! principal snapshot taken at login time; it is the sole source of truth
//! for whether a token is live. Sessions have no expiry: they end by
//! explicit revocation or by process restart.

use vstd::prelude::*;

use base64::Engine;

use crate::db::models::User;
use crate::utils::random_bytes;

verus! {

/// Length of a raw session token, in bytes.
pub const TOKEN_SIZE: usize = 32;

/// The standard base64 encoding of a byte string. A function of the
/// bytes alone.
pub uninterp spec fn b64_of(bytes: Seq<u8>) -> Seq<char>;

/// What standard base64 decoding yields for a text: the decoded bytes,
/// or `None` when the text is not well-formed base64. A function of the
/// characters alone.
pub uninterp spec fn b64_decode_of(text: Seq<char>) -> Option<Seq<u8>>;

/// Relies on base64's standard engine `encode`; its `decode` reverses
/// the encoding, which is the second clause.
#[verifier::external_body]
fn base64_encode(bytes: &[u8]) -> (r: String)
    ensures
        r@ == b64_of(bytes@),
        b64_decode_of(r@) == Some(bytes@),
{
    base64::engine::general_purpose::STANDARD.encode(bytes)
}

/// Relies on base64's standard engine `decode`: the decoded bytes, or an
/// error for text that is not well-formed base64.
#[verifier::external_body]
fn base64_decode(text: &str) -> (r: Option<Vec<u8>>)
    ensures
        r is Some <==> b64_decode_of(text@) is Some,
        r is Some ==> r->0@ == b64_decode_of(text@)->0,
{
    base64::engine::general_purpose::STANDARD.decode(text).ok()
}

/// What decoding a wire token yields: the raw bytes when the text is
/// well-formed base64 of exactly `TOKEN_SIZE` bytes, `None` otherwise.
pub open spec fn token_decoded_of(text: Seq<char>) -> Option<Seq<u8>> {
    match b64_decode_of(text) {
        Some(bytes) => if bytes.len() == TOKEN_SIZE {
            Some(bytes)
        } else {
            None
        },
        None => None,
    }
}

/// An opaque session token: 32 random bytes, no timestamp or counter
/// component.
pub struct SessionToken {
    pub bytes: Vec<u8>,
}

impl View for SessionToken {
    type V = Seq<u8>;

    open spec fn view(&self) -> Seq<u8> {
        self.bytes@
    }
}

impl SessionToken {
    /// A raw token is exactly `TOKEN_SIZE` bytes.
    pub open spec fn wf(&self) -> bool {
        self@.len() == TOKEN_SIZE
    }

    /// A fresh random token.
    pub fn generate() -> (r: SessionToken)
        ensures
            r.wf(),
    {
        SessionToken { bytes: random_bytes(TOKEN_SIZE) }
    }

    /// An identical copy of the token.
    pub fn duplicate(&self) -> (r: SessionToken)
        ensures
            r@ =~= self@,
    {
        let bytes = self.bytes.clone();
        assert(bytes@ =~= self.bytes@);
        SessionToken { bytes }
    }

    /// Encode the token for the `Authorization` header. Decoding the
    /// result yields the token back: the wire form loses nothing.
    pub fn encode(&self) -> (r: String)
        ensures
            r@ == b64_of(self@),
            b64_decode_of(r@) == Some(self@),
            self.wf() ==> token_decoded_of(r@) == Some(self@),
    {
        base64_encode(self.bytes.as_slice())
    }

    /// Decode a wire token. Yields the token exactly when the text is
    /// well-formed base64 of exactly `TOKEN_SIZE` bytes; malformed text
    /// or a wrong length yields `None`, never a panic.
    pub fn decode(text: &str) -> (r: Option<SessionToken>)
        ensures
            r is Some <==> token_decoded_of(text@) is Some,
            r is Some ==> r->0@ == token_decoded_of(text@)->0,
            r is Some ==> r->0.wf(),
    {
        match base64_decode(text) {
            Some(bytes) => {
                if bytes.len() == TOKEN_SIZE {
                    Some(SessionToken { bytes })
                } else {
                    None
                }
            },
            None => None,
        }
    }
}

/// One live session: an issued token and the principal snapshot taken at
/// login time.
pub struct Session {
    pub token: SessionToken,
    pub user: User,
}

/// No token appears twice.
pub open spec fn unique_tokens(s: Seq<Session>) -> bool {
    forall|i: int, j: int|
        0 <= i < s.len() && 0 <= j < s.len() && s[i].token@ == s[j].token@ ==> i == j
}

/// Every stored token has the raw token length.
pub open spec fn tokens_sized(s: Seq<Session>) -> bool {
    forall|i: int| 0 <= i < s.len() ==> (#[trigger] s[i].token@).len() == TOKEN_SIZE
}

/// Some session carries this token.
pub open spec fn has_token(s: Seq<Session>, t: Seq<u8>) -> bool {
    exists|i: int| 0 <= i < s.len() && s[i].token@ == t
}

/// Index of the session carrying this token; meaningful under
/// `unique_tokens`.
pub open spec fn token_index(s: Seq<Session>, t: Seq<u8>) -> int {
    choose|i: int| 0 <= i < s.len() && s[i].token@ == t
}

/// The principal this token proves; meaningful when `has_token` holds.
pub open spec fn user_for_token(s: Seq<Session>, t: Seq<u8>) -> User {
    s[token_index(s, t)].user
}

/// What looking a token up yields: the principal snapshot, or `None` for
/// a token that is absent — absence means "not authenticated", never an
/// error.
pub open spec fn spec_lookup(s: Seq<Session>, t: Seq<u8>) -> Option<User> {
    if has_token(s, t) {
        Some(user_for_token(s, t))
    } else {
        None
    }
}

/// What revoking a token leaves: the same sessions without the one
/// carrying the token, or everything unchanged when the token is absent.
pub open spec fn spec_revoke(s: Seq<Session>, t: Seq<u8>) -> Seq<Session> {
    if has_token(s, t) {
        s.remove(token_index(s, t))
    } else {
        s
    }
}

/// Some session belongs to this principal id.
pub open spec fn has_session_for(s: Seq<Session>, id: i32) -> bool {
    exists|i: int| 0 <= i < s.len() && s[i].user.id == id
}

/// What revoking by principal id leaves: the sessions without the first
/// one held by that principal, or everything unchanged when the
/// principal holds none.
pub open spec fn revoked_for_principal(pre: Seq<Session>, post: Seq<Session>, id: i32) -> bool {
    if has_session_for(pre, id) {
        exists|k: int|
            {
                &&& 0 <= k < pre.len()
                &&& pre[k].user.id == id
                &&& (forall|j: int| 0 <= j < k ==> pre[j].user.id != id)
                &&& post =~= pre.remove(k)
            }
    } else {
        post =~= pre
    }
}

/// Compare two byte strings.
fn bytes_eq(a: &Vec<u8>, b: &Vec<u8>) -> (r: bool)
    ensures
        r == (a@ == b@),
{
    if a.len() != b.len() {
        return false;
    }
    let n = a.len();
    let mut i: usize = 0;
    while i < n
        invariant
            n == a@.len(),
            n == b@.len(),
            i <= n,
            forall|j: int| 0 <= j < i ==> a@[j] == b@[j],
        decreases n - i,
    {
        if a[i] != b[i] {
            return false;
        }
        i += 1;
    }
    assert(a@ =~= b@);
    true
}

/// The session store: the process-wide map from live tokens to principal
/// snapshots. The boundary layer serializes access to it behind one lock.
pub struct SessionStore {
    sessions: Vec<Session>,
}

impl View for SessionStore {
    type V = Seq<Session>;

    closed spec fn view(&self) -> Seq<Session> {
        self.sessions@
    }
}

impl SessionStore {
    /// Tokens are unique keys of the expected length.
    pub open spec fn wf(&self) -> bool {
        &&& unique_tokens(self@)
        &&& tokens_sized(self@)
    }

    /// An empty store: a restart invalidates every session.
    pub fn new() -> (r: SessionStore)
        ensures
            r.wf(),
            r@ =~= Seq::<Session>::empty(),
    {
        SessionStore { sessions: Vec::new() }
    }

    /// Number of live sessions.
    pub fn len(&self) -> (n: usize)
        ensures
            n == self@.len(),
    {
        self.sessions.len()
    }

    /// Insert a session under this token, replacing any session the
    /// token already proves.
    pub fn insert(&mut self, token: SessionToken, user: User)
        requires
            old(self).wf(),
            token.wf(),
        ensures
            final(self).wf(),
            !has_token(old(self)@, token@) ==> final(self)@ =~= old(self)@.push(
                (Session { token, user }),
            ),
            has_token(old(self)@, token@) ==> final(self)@ =~= old(self)@.update(
                token_index(old(self)@, token@),
                (Session { token, user }),
            ),
            spec_lookup(final(self)@, token@) == Some(user),
            forall|t2: Seq<u8>| t2 != token@ ==> spec_lookup(final(self)@, t2) == spec_lookup(
                old(self)@,
                t2,
            ),
    {
        let n = self.sessions.len();
        let mut i: usize = 0;
        while i < n
            invariant
                n == self@.len(),
                i <= n,
                old(self).wf(),
                self == old(self),
                forall|j: int| 0 <= j < i ==> #[trigger] self@[j].token@ != token@,
            decreases n - i,
        {
            if bytes_eq(&self.sessions[i].token.bytes, &token.bytes) {
                assert(has_token(self@, token@));
                assert(token_index(self@, token@) == i as int);
                let _removed = self.sessions.remove(i);
                self.sessions.insert(i, Session { token, user });
                assert(self@ =~= old(self)@.update(i as int, (Session { token, user })));
                assert(spec_lookup(self@, token@) == Some(user)) by {
                    assert(self@[i as int].token@ == token@);
                    assert(has_token(self@, token@));
                    assert(token_index(self@, token@) == i as int);
                };
                assert forall|t2: Seq<u8>| t2 != token@ implies spec_lookup(self@, t2)
                    == spec_lookup(old(self)@, t2) by {
                    lemma_lookup_after_update(old(self)@, i as int, (Session { token, user }), t2);
                };
                return ;
            }
            i += 1;
        }
        assert(!has_token(self@, token@));
        self.sessions.push(Session { token, user });
        assert(self@ =~= old(self)@.push((Session { token, user })));
        assert(self@[self@.len() - 1].token@ == token@);
        assert(has_token(self@, token@));
        assert(token_index(self@, token@) == self@.len() - 1);
        assert forall|t2: Seq<u8>| t2 != token@ implies spec_lookup(self@, t2) == spec_lookup(
            old(self)@,
            t2,
        ) by {
            lemma_lookup_after_push(old(self)@, (Session { token, user }), t2);
        };
    }

    /// Issue a session: generate a fresh random token, store the
    /// principal snapshot under it, and hand the token back. The store
    /// grows by one session unless the generator repeated a live token,
    /// which a 256-bit random space makes negligible.
    pub fn issue(&mut self, user: User) -> (token: SessionToken)
        requires
            old(self).wf(),
        ensures
            final(self).wf(),
            token.wf(),
            spec_lookup(final(self)@, token@) == Some(user),
            forall|t2: Seq<u8>| t2 != token@ ==> spec_lookup(final(self)@, t2) == spec_lookup(
                old(self)@,
                t2,
            ),
            !has_token(old(self)@, token@) ==> {
                &&& final(self)@.len() == old(self)@.len() + 1
                &&& final(self)@.drop_last() =~= old(self)@
                &&& final(self)@.last().token@ == token@
                &&& final(self)@.last().user == user
            },
    {
        let token = SessionToken::generate();
        let stored = token.duplicate();
        assert(stored@ == token@);
        self.insert(stored, user);
        token
    }

    /// Look a token up; absence means "not authenticated", never an
    /// error, and nothing is mutated.
    pub fn lookup(&self, token: &SessionToken) -> (r: Option<User>)
        requires
            self.wf(),
        ensures
            r == spec_lookup(self@, token@),
    {
        let n = self.sessions.len();
        let mut i: usize = 0;
        while i < n
            invariant
                n == self@.len(),
                i <= n,
                self.wf(),
                forall|j: int| 0 <= j < i ==> #[trigger] self@[j].token@ != token@,
            decreases n - i,
        {
            if bytes_eq(&self.sessions[i].token.bytes, &token.bytes) {
                assert(has_token(self@, token@));
                assert(token_index(self@, token@) == i as int);
                return Some(self.sessions[i].user.clone());
            }
            i += 1;
        }
        assert(!has_token(self@, token@));
        None
    }

    /// Revoke a token: the session it proves, if any, is removed.
    /// Revoking an absent token changes nothing, so revocation is
    /// idempotent and never fails.
    pub fn revoke(&mut self, token: &SessionToken)
        requires
            old(self).wf(),
        ensures
            final(self).wf(),
            final(self)@ =~= spec_revoke(old(self)@, token@),
            !has_token(final(self)@, token@),
    {
        let n = self.sessions.len();
        let mut i: usize = 0;
        while i < n
            invariant
                n == self@.len(),
                i <= n,
                old(self).wf(),
                self == old(self),
                forall|j: int| 0 <= j < i ==> #[trigger] self@[j].token@ != token@,
            decreases n - i,
        {
            if bytes_eq(&self.sessions[i].token.bytes, &token.bytes) {
                assert(has_token(self@, token@));
                assert(token_index(self@, token@) == i as int);
                let _removed = self.sessions.remove(i);
                assert(self@ =~= spec_revoke(old(self)@, token@));
                proof {
                    lemma_revoke_idempotent(old(self)@, token@);
                }
                return ;
            }
            i += 1;
        }
        assert(!has_token(self@, token@));
    }

    /// Revoke the first session held by this principal id, if any; used
    /// when an admin deletes another account. Later sessions of the same
    /// principal, if any, stay live.
    pub fn revoke_by_principal_id(&mut self, id: i32)
        requires
            old(self).wf(),
        ensures
            final(self).wf(),
            revoked_for_principal(old(self)@, final(self)@, id),
    {
        let n = self.sessions.len();
        let mut i: usize = 0;
        while i < n
            invariant
                n == self@.len(),
                i <= n,
                old(self).wf(),
                self == old(self),
                forall|j: int| 0 <= j < i ==> #[trigger] self@[j].user.id != id,
            decreases n - i,
        {
            if self.sessions[i].user.id == id {
                assert(has_session_for(old(self)@, id));
                let _removed = self.sessions.remove(i);
                assert(self@ =~= old(self)@.remove(i as int));
                assert(unique_tokens(self@)) by {
                    lemma_remove_keeps_unique(old(self)@, i as int);
                };
                assert(revoked_for_principal(old(self)@, self@, id));
                return ;
            }
            i += 1;
        }
        assert(!has_session_for(self@, id));
    }
}

/// Removing one session keeps the remaining tokens unique.
proof fn lemma_remove_keeps_unique(s: Seq<Session>, k: int)
    requires
        unique_tokens(s),
        0 <= k < s.len(),
    ensures
        unique_tokens(s.remove(k)),
{
    let r = s.remove(k);
    assert forall|i: int, j: int|
        0 <= i < r.len() && 0 <= j < r.len() && r[i].token@ == r[j].token@ implies i == j by {
        let oi = if i < k {
            i
        } else {
            i + 1
        };
        let oj = if j < k {
            j
        } else {
            j + 1
        };
        assert(r[i] == s[oi]);
        assert(r[j] == s[oj]);
    };
}

/// Looking a token up is unchanged by overwriting the session of a
/// different token in place.
proof fn lemma_lookup_after_update(s: Seq<Session>, k: int, ns: Session, t2: Seq<u8>)
    requires
        unique_tokens(s),
        0 <= k < s.len(),
        ns.token@ == s[k].token@,
        t2 != ns.token@,
    ensures
        spec_lookup(s.update(k, ns), t2) == spec_lookup(s, t2),
{
    let u = s.update(k, ns);
    assert forall|i: int| 0 <= i < u.len() implies #[trigger] u[i].token@ == s[i].token@ by {
        if i != k {
            assert(u[i] == s[i]);
        }
    };
    if has_token(s, t2) {
        let m = token_index(s, t2);
        assert(0 <= m < s.len() && s[m].token@ == t2);
        assert(m != k);
        assert(u[m] == s[m]);
        assert(has_token(u, t2));
        let nj = token_index(u, t2);
        assert(0 <= nj < u.len() && u[nj].token@ == t2);
        assert(nj != k);
        assert(u[nj] == s[nj]);
        assert(nj == m);
        assert(user_for_token(u, t2) == user_for_token(s, t2));
    } else {
        assert(!has_token(u, t2));
    }
}

/// Looking a token up is unchanged by appending a session of a
/// different token.
proof fn lemma_lookup_after_push(s: Seq<Session>, ns: Session, t2: Seq<u8>)
    requires
        unique_tokens(s),
        t2 != ns.token@,
    ensures
        spec_lookup(s.push(ns), t2) == spec_lookup(s, t2),
{
    let u = s.push(ns);
    if has_token(s, t2) {
        let m = token_index(s, t2);
        assert(0 <= m < s.len() && s[m].token@ == t2);
        assert(u[m] == s[m]);
        assert(has_token(u, t2));
        let nj = token_index(u, t2);
        assert(0 <= nj < u.len() && u[nj].token@ == t2);
        assert(nj != s.len() as int);
        assert(u[nj] == s[nj]);
        assert(nj == m);
        assert(user_for_token(u, t2) == user_for_token(s, t2));
    } else {
        assert forall|i: int| 0 <= i < u.len() implies #[trigger] u[i].token@ != t2 by {
            if i < s.len() {
                assert(u[i] == s[i]);
            }
        };
        assert(!has_token(u, t2));
    }
}

/// Law: after a token is revoked it no longer looks up, and revoking it
/// again changes nothing.
pub proof fn lemma_revoke_idempotent(s: Seq<Session>, t: Seq<u8>)
    requires
        unique_tokens(s),
    ensures
        !has_token(spec_revoke(s, t), t),
        spec_lookup(spec_revoke(s, t), t) is None,
        spec_revoke(spec_revoke(s, t), t) =~= spec_revoke(s, t),
{
    if has_token(s, t) {
        let k = token_index(s, t);
        assert(0 <= k < s.len() && s[k].token@ == t);
        let r = s.remove(k);
        assert forall|i: int| 0 <= i < r.len() implies r[i].token@ != t by {
            let oi = if i < k {
                i
            } else {
                i + 1
            };
            assert(r[i] == s[oi]);
        };
        assert(!has_token(r, t));
    }
}

/// Law: revoking one token leaves every other token's session exactly as
/// it was — sessions are independently revocable.
pub proof fn lemma_revoke_independent(s: Seq<Session>, t1: Seq<u8>, t2: Seq<u8>)
    requires
        unique_tokens(s),
        t1 != t2,
    ensures
        spec_lookup(spec_revoke(s, t1), t2) == spec_lookup(s, t2),
{
    if has_token(s, t1) {
        let k = token_index(s, t1);
        let r = s.remove(k);
        if has_token(s, t2) {
            let m = token_index(s, t2);
            assert(0 <= m < s.len() && s[m].token@ == t2);
            assert(m != k);
            let ni = if m < k {
                m
            } else {
                m - 1
            };
            assert(r[ni] == s[m]);
            assert(has_token(r, t2));
            let nj = token_index(r, t2);
            let oj = if nj < k {
                nj
            } else {
                nj + 1
            };
            assert(r[nj] == s[oj]);
            assert(oj == m);
            assert(user_for_token(r, t2) == user_for_token(s, t2));
        } else {
            assert forall|i: int| 0 <= i < r.len() implies r[i].token@ != t2 by {
                let oi = if i < k {
                    i
                } else {
                    i + 1
                };
                assert(r[i] == s[oi]);
            };
            assert(!has_token(r, t2));
        }
    }
}

} // verus!
