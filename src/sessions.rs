use vstd::prelude::*;

use crate::error::ErrorKind;
use crate::sources::{bcrypt_accepts, current_time, fresh_token, password_matches};
use crate::text::same_text;

verus! {

/// The answer to a privileged request's token.
#[derive(Debug, Clone, Copy, PartialEq, Eq, Structural)]
pub enum AuthStatus {
    Authenticated,
    Unauthenticated,
}

/// A session that authorizes gate mutation; without an expiry it never expires.
pub struct PrivilegedSession {
    pub token: String,
    pub expires_at: Option<i64>,
}

/// A privileged session as the model sees it: token and expiry, in seconds.
pub type SessionRow = (Seq<char>, Option<i64>);

/// No token is held twice.
pub open spec fn sessions_wf(rows: Seq<SessionRow>) -> bool {
    forall|i: int, j: int| 0 <= i < j < rows.len() ==> rows[i].0 != rows[j].0
}

pub open spec fn holds_token(rows: Seq<SessionRow>, token: Seq<char>) -> bool {
    exists|i: int| 0 <= i < rows.len() && rows[i].0 == token
}

/// The position of the session holding `token`, where there is one.
pub open spec fn token_index(rows: Seq<SessionRow>, token: Seq<char>) -> int {
    choose|i: int| 0 <= i < rows.len() && rows[i].0 == token
}

/// A session whose expiry lies before `now`.
pub open spec fn is_expired(expires_at: Option<i64>, now: i64) -> bool {
    expires_at matches Some(e) && e < now
}

/// The expiry of a session issued at `now` under `ttl` seconds; one beyond the
/// last representable second is held at that second.
pub open spec fn expiry_after(ttl: Option<u32>, now: i64) -> Option<i64> {
    match ttl {
        None => None,
        Some(t) => Some(
            if now + t > i64::MAX {
                i64::MAX
            } else {
                (now + t) as i64
            },
        ),
    }
}

/// Issuing a session: a token already held is refused, as the store's unique
/// key refuses it.
pub open spec fn issue_step(rows: Seq<SessionRow>, token: Seq<char>, expires_at: Option<i64>) -> (
    Seq<SessionRow>,
    Result<(), ErrorKind>,
) {
    if holds_token(rows, token) {
        (rows, Err(ErrorKind::StoreUnavailable))
    } else {
        (rows.push((token, expires_at)), Ok(()))
    }
}

/// Validating a token at `now`: an unknown token is refused; an expired one
/// is deleted and refused; any other is accepted.
pub open spec fn validate_step(rows: Seq<SessionRow>, token: Seq<char>, now: i64) -> (
    Seq<SessionRow>,
    AuthStatus,
) {
    if !holds_token(rows, token) {
        (rows, AuthStatus::Unauthenticated)
    } else {
        let i = token_index(rows, token);
        if is_expired(rows[i].1, now) {
            (rows.remove(i), AuthStatus::Unauthenticated)
        } else {
            (rows, AuthStatus::Authenticated)
        }
    }
}

/// Logging out deletes the session holding `token`, if any.
pub open spec fn logout_step(rows: Seq<SessionRow>, token: Seq<char>) -> Seq<SessionRow> {
    if holds_token(rows, token) {
        rows.remove(token_index(rows, token))
    } else {
        rows
    }
}

proof fn lemma_token_index(rows: Seq<SessionRow>, token: Seq<char>, i: int)
    requires
        sessions_wf(rows),
        0 <= i < rows.len(),
        rows[i].0 == token,
    ensures
        holds_token(rows, token),
        token_index(rows, token) == i,
{
    assert(holds_token(rows, token));
    let j = token_index(rows, token);
    if j < i {
        assert(rows[j].0 != rows[i].0);
    } else if i < j {
        assert(rows[i].0 != rows[j].0);
    }
}

proof fn lemma_remove_token(rows: Seq<SessionRow>, token: Seq<char>)
    requires
        sessions_wf(rows),
        holds_token(rows, token),
    ensures
        sessions_wf(rows.remove(token_index(rows, token))),
        !holds_token(rows.remove(token_index(rows, token)), token),
{
    let i = token_index(rows, token);
    let after = rows.remove(i);
    assert forall|a: int, b: int| 0 <= a < b < after.len() implies after[a].0 != after[b].0 by {
        let a0 = if a < i { a } else { a + 1 };
        let b0 = if b < i { b } else { b + 1 };
        assert(after[a] == rows[a0]);
        assert(after[b] == rows[b0]);
    }
    if holds_token(after, token) {
        let k = choose|k: int| 0 <= k < after.len() && after[k].0 == token;
        let k0 = if k < i { k } else { k + 1 };
        assert(after[k] == rows[k0]);
        lemma_token_index(rows, token, k0);
    }
}

/// Once a validation finds a token expired, it answers unauthenticated and
/// deletes the session, so that every later validation of the token, at any
/// time, answers unauthenticated again and changes nothing.
pub proof fn expired_token_stays_rejected(
    rows: Seq<SessionRow>,
    token: Seq<char>,
    now: i64,
    later: i64,
)
    requires
        sessions_wf(rows),
        holds_token(rows, token),
        is_expired(rows[token_index(rows, token)].1, now),
    ensures
        ({
            let (after, status) = validate_step(rows, token, now);
            &&& status == AuthStatus::Unauthenticated
            &&& !holds_token(after, token)
            &&& validate_step(after, token, later) == (after, AuthStatus::Unauthenticated)
        }),
{
    lemma_remove_token(rows, token);
}

/// Issues, validates and revokes the sessions that guard privileged
/// requests; the password is checked against a stored bcrypt hash.
pub struct SessionManager {
    sessions: Vec<PrivilegedSession>,
    password_hash: String,
    ttl: Option<u32>,
}

impl View for SessionManager {
    type V = Seq<SessionRow>;

    closed spec fn view(&self) -> Seq<SessionRow> {
        self.sessions@.map_values(|s: PrivilegedSession| (s.token@, s.expires_at))
    }
}

impl SessionManager {
    pub open spec fn wf(&self) -> bool {
        sessions_wf(self@)
    }

    /// The stored hash that passwords are checked against.
    pub closed spec fn hash_view(&self) -> Seq<char> {
        self.password_hash@
    }

    /// The lifetime, in seconds, of the sessions issued; none means they never expire.
    pub closed spec fn ttl_view(&self) -> Option<u32> {
        self.ttl
    }

    pub fn new(password_hash: String, ttl: Option<u32>) -> (r: Self)
        ensures
            r@ == Seq::<SessionRow>::empty(),
            r.wf(),
            r.hash_view() == password_hash@,
            r.ttl_view() == ttl,
    {
        let r = SessionManager { sessions: Vec::new(), password_hash, ttl };
        assert(r@ =~= Seq::<SessionRow>::empty());
        r
    }

    /// The number of live sessions.
    pub fn len(&self) -> (r: usize)
        ensures
            r == self@.len(),
    {
        self.sessions.len()
    }

    /// The position of the session holding `token`.
    fn find(&self, token: &str) -> (r: Option<usize>)
        requires
            self.wf(),
        ensures
            r is None <==> !holds_token(self@, token@),
            r matches Some(i) ==> i < self@.len() && i == token_index(self@, token@),
    {
        let n = self.sessions.len();
        let mut i: usize = 0;
        while i < n
            invariant
                n == self@.len(),
                0 <= i <= n,
                sessions_wf(self@),
                forall|j: int| 0 <= j < i ==> self@[j].0 != token@,
            decreases n - i,
        {
            assert(self@[i as int].0 == self.sessions@[i as int].token@);
            if same_text(self.sessions[i].token.as_str(), token) {
                proof {
                    lemma_token_index(self@, token@, i as int);
                }
                return Some(i);
            }
            i += 1;
        }
        None
    }

    fn expiry(&self, now: i64) -> (r: Option<i64>)
        ensures
            r == expiry_after(self.ttl_view(), now),
    {
        match self.ttl {
            None => None,
            Some(t) => Some(
                if now > i64::MAX - t as i64 {
                    i64::MAX
                } else {
                    now + t as i64
                },
            ),
        }
    }

    /// Records a session for `token`, issued at `now`.
    pub fn issue(&mut self, token: String, now: i64) -> (r: Result<(), ErrorKind>)
        requires
            old(self).wf(),
        ensures
            final(self).wf(),
            final(self).hash_view() == old(self).hash_view(),
            final(self).ttl_view() == old(self).ttl_view(),
            (final(self)@, r) == issue_step(
                old(self)@,
                token@,
                expiry_after(old(self).ttl_view(), now),
            ),
    {
        if self.find(token.as_str()).is_some() {
            return Err(ErrorKind::StoreUnavailable);
        }
        let expires_at = self.expiry(now);
        let ghost before = self@;
        let ghost t = token@;
        self.sessions.push(PrivilegedSession { token, expires_at });
        assert(self@ =~= before.push((t, expires_at)));
        Ok(())
    }

    /// Completes a login once the password check has answered: a refused
    /// password issues nothing; an accepted one issues `token` at `now`.
    pub fn login_with(&mut self, accepted: bool, token: String, now: i64) -> (r: Result<String, ErrorKind>)
        requires
            old(self).wf(),
        ensures
            final(self).wf(),
            final(self).hash_view() == old(self).hash_view(),
            final(self).ttl_view() == old(self).ttl_view(),
            !accepted ==> r == Err::<String, ErrorKind>(ErrorKind::Unauthenticated) && final(self)@
                == old(self)@,
            accepted && holds_token(old(self)@, token@) ==> r == Err::<String, ErrorKind>(
                ErrorKind::StoreUnavailable,
            ) && final(self)@ == old(self)@,
            accepted && !holds_token(old(self)@, token@) ==> r == Ok::<String, ErrorKind>(token)
                && final(self)@ == old(self)@.push(
                (token@, expiry_after(old(self).ttl_view(), now)),
            ),
    {
        if !accepted {
            return Err(ErrorKind::Unauthenticated);
        }
        let kept = token.clone();
        match self.issue(kept, now) {
            Ok(()) => Ok(token),
            Err(e) => Err(e),
        }
    }

    /// Checks `password` against the stored hash and, if it is accepted,
    /// issues a fresh random token that expires after the configured lifetime.
    /// A refused password is reported as unauthenticated, whatever the reason;
    /// an accepted one fails only if the fresh token is already held.
    pub fn login(&mut self, password: &str) -> (r: Result<String, ErrorKind>)
        requires
            old(self).wf(),
        ensures
            final(self).wf(),
            final(self).hash_view() == old(self).hash_view(),
            final(self).ttl_view() == old(self).ttl_view(),
            !bcrypt_accepts(password@, old(self).hash_view()) ==> r == Err::<String, ErrorKind>(
                ErrorKind::Unauthenticated,
            ) && final(self)@ == old(self)@,
            bcrypt_accepts(password@, old(self).hash_view()) && old(self)@.len() == 0 ==> r is Ok,
            r == Err::<String, ErrorKind>(ErrorKind::StoreUnavailable) ==> exists|t: Seq<char>|
                t.len() == 36 && holds_token(old(self)@, t),
            bcrypt_accepts(password@, old(self).hash_view()) ==> (r == Err::<String, ErrorKind>(
                ErrorKind::StoreUnavailable,
            ) && final(self)@ == old(self)@) || (r matches Ok(t) && t@.len() == 36 && !holds_token(
                old(self)@,
                t@,
            ) && exists|now: i64|
                final(self)@ == old(self)@.push((t@, expiry_after(old(self).ttl_view(), now)))),
    {
        let accepted = password_matches(password, self.password_hash.as_str());
        if !accepted {
            return Err(ErrorKind::Unauthenticated);
        }
        let token = fresh_token();
        let now = current_time();
        self.login_with(true, token, now)
    }

    /// Validates `token` at `now`: unknown tokens are refused, expired ones are
    /// deleted and refused.
    pub fn validate_at(&mut self, token: &str, now: i64) -> (r: AuthStatus)
        requires
            old(self).wf(),
        ensures
            final(self).wf(),
            final(self).hash_view() == old(self).hash_view(),
            final(self).ttl_view() == old(self).ttl_view(),
            (final(self)@, r) == validate_step(old(self)@, token@, now),
    {
        let i = match self.find(token) {
            None => return AuthStatus::Unauthenticated,
            Some(i) => i,
        };
        let ghost before = self@;
        assert(before[i as int].1 == self.sessions@[i as int].expires_at);
        let expired = match self.sessions[i].expires_at {
            Some(e) => e < now,
            None => false,
        };
        if expired {
            proof {
                lemma_remove_token(before, token@);
            }
            self.sessions.remove(i);
            assert(self@ =~= before.remove(i as int));
            AuthStatus::Unauthenticated
        } else {
            AuthStatus::Authenticated
        }
    }

    /// Validates `token` against the current time.
    pub fn validate(&mut self, token: &str) -> (r: AuthStatus)
        requires
            old(self).wf(),
        ensures
            final(self).wf(),
            final(self).hash_view() == old(self).hash_view(),
            final(self).ttl_view() == old(self).ttl_view(),
            exists|now: i64| (final(self)@, r) == validate_step(old(self)@, token@, now),
    {
        let now = current_time();
        self.validate_at(token, now)
    }

    /// Deletes the session holding `token`; a revoked token is never
    /// reinstated.
    pub fn logout(&mut self, token: &str)
        requires
            old(self).wf(),
        ensures
            final(self).wf(),
            final(self).hash_view() == old(self).hash_view(),
            final(self).ttl_view() == old(self).ttl_view(),
            final(self)@ == logout_step(old(self)@, token@),
    {
        match self.find(token) {
            None => {},
            Some(i) => {
                let ghost before = self@;
                proof {
                    lemma_remove_token(before, token@);
                }
                self.sessions.remove(i);
                assert(self@ =~= before.remove(i as int));
            },
        }
    }
}

} // verus!
