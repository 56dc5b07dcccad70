//! The session authority: bearer tokens bound to identities, with expiry.

use vstd::prelude::*;

use crate::account::{cookie_name, session_cookie_name};
use crate::clock::{random_uuid, unix_now};
use crate::cookie::{cookie_value, get_cookie};
use crate::identity::{Identity, Role};
use crate::text::same_text;

verus! {

/// How long a member session lives, in seconds (30 days).
pub const MEMBER_SESSION_SECS: i64 = 2592000;

/// How long an admin session lives, in seconds (7 days).
pub const ADMIN_SESSION_SECS: i64 = 604800;

/// A bearer token bound to an identity until `expires_at` (exclusive).
#[derive(Clone, Debug)]
pub struct Session {
    pub token: String,
    pub identity: Identity,
    pub created_at: i64,
    pub expires_at: i64,
}

#[derive(Clone, Copy, Debug, PartialEq, Eq, Structural)]
pub enum AuthError {
    /// No session holds the token, or it has expired.
    Unauthenticated,
}

#[derive(Clone, Copy, Debug, PartialEq, Eq, Structural)]
pub enum SessionError {
    /// A session already holds the token.
    DuplicateToken,
    /// The expiry time does not fit in an `i64`.
    ClockOutOfRange,
}

/// Lifetime of a session of role class `role`, in seconds.
pub open spec fn lifetime(role: Role) -> int {
    match role {
        Role::Member => MEMBER_SESSION_SECS as int,
        Role::Admin => ADMIN_SESSION_SECS as int,
    }
}

/// A session is live strictly before its expiry time.
pub open spec fn live_at(s: Session, now: i64) -> bool {
    now < s.expires_at
}

/// No two sessions share a token.
pub open spec fn tokens_unique(ss: Seq<Session>) -> bool {
    forall|i: int, j: int|
        0 <= i < ss.len() && 0 <= j < ss.len() && i != j ==> ss[i].token@ != ss[j].token@
}

/// Whether some session holds `token`.
pub open spec fn has_token(ss: Seq<Session>, token: Seq<char>) -> bool {
    exists|i: int| 0 <= i < ss.len() && #[trigger] ss[i].token@ == token
}

/// Whether a session holding `token` is live at `now` and binds `id`.
pub open spec fn grants(ss: Seq<Session>, token: Seq<char>, now: i64, id: Identity) -> bool {
    exists|i: int|
        0 <= i < ss.len() && #[trigger] ss[i].token@ == token && live_at(ss[i], now)
            && ss[i].identity == id
}

/// Whether a session holding `token` is live at `now`.
pub open spec fn valid_at(ss: Seq<Session>, token: Seq<char>, now: i64) -> bool {
    exists|i: int| 0 <= i < ss.len() && #[trigger] ss[i].token@ == token && live_at(ss[i], now)
}

/// The sessions that are still live at `now`, in their order.
pub open spec fn swept(ss: Seq<Session>, now: i64) -> Seq<Session>
    decreases ss.len(),
{
    if ss.len() == 0 {
        Seq::empty()
    } else if live_at(ss.last(), now) {
        swept(ss.drop_last(), now).push(ss.last())
    } else {
        swept(ss.drop_last(), now)
    }
}

/// The other role class.
pub open spec fn other_role(role: Role) -> Role {
    match role {
        Role::Member => Role::Admin,
        Role::Admin => Role::Member,
    }
}

/// The session token that a request with Cookie headers `headers` presents:
/// the cookie of role class `first` if it is there, else that of the other.
pub open spec fn presented_token(headers: Seq<String>, first: Role) -> Option<Seq<char>> {
    if cookie_value(headers, cookie_name(first)) is Some {
        cookie_value(headers, cookie_name(first))
    } else {
        cookie_value(headers, cookie_name(other_role(first)))
    }
}

/// The session that `identity` gets when it logs in at `now` with `token`.
pub open spec fn fresh_session(token: String, identity: Identity, now: i64) -> Session {
    Session {
        token,
        identity,
        created_at: now,
        expires_at: (now + lifetime(identity.role)) as i64,
    }
}

/// Sweeping keeps exactly the live sessions, and keeps tokens unique.
pub proof fn lemma_swept_contains(ss: Seq<Session>, now: i64)
    ensures
        forall|x: Session|
            #![trigger swept(ss, now).contains(x)]
            #![trigger ss.contains(x)]
            swept(ss, now).contains(x) <==> ss.contains(x) && live_at(x, now),
        tokens_unique(ss) ==> tokens_unique(swept(ss, now)),
    decreases ss.len(),
{
    if ss.len() > 0 {
        let init = ss.drop_last();
        lemma_swept_contains(init, now);
        let rest = swept(init, now);
        assert forall|x: Session| swept(ss, now).contains(x) <==> ss.contains(x) && live_at(x, now) by {
            if ss.contains(x) && live_at(x, now) {
                let k = choose|k: int| 0 <= k < ss.len() && ss[k] == x;
                if k < init.len() {
                    assert(init[k] == x);
                    assert(init.contains(x));
                    let m = choose|m: int| 0 <= m < rest.len() && rest[m] == x;
                    assert(swept(ss, now)[m] == x);
                } else {
                    assert(swept(ss, now) == rest.push(x));
                    assert(swept(ss, now)[rest.len() as int] == x);
                }
            }
            if swept(ss, now).contains(x) {
                let k = choose|k: int| 0 <= k < swept(ss, now).len() && swept(ss, now)[k] == x;
                if k < rest.len() {
                    assert(rest[k] == x);
                    assert(rest.contains(x));
                    let m = choose|m: int| 0 <= m < init.len() && init[m] == x;
                    assert(ss[m] == x);
                } else {
                    assert(ss[ss.len() - 1] == x);
                }
            }
        }
        if tokens_unique(ss) {
            assert(forall|i: int| 0 <= i < init.len() ==> init[i] == ss[i]);
            assert(tokens_unique(init));
            if live_at(ss.last(), now) {
                assert forall|i: int| 0 <= i < rest.len() implies rest[i].token@ != ss.last().token@ by {
                    assert(rest.contains(rest[i]));
                    let m = choose|m: int| 0 <= m < init.len() && init[m] == rest[i];
                    assert(ss[m] == rest[i]);
                }
            }
        }
    }
}

proof fn lemma_swept_step(ss: Seq<Session>, now: i64, i: int)
    requires
        0 <= i < ss.len(),
    ensures
        swept(ss.subrange(0, i + 1), now) == if live_at(ss[i], now) {
            swept(ss.subrange(0, i), now).push(ss[i])
        } else {
            swept(ss.subrange(0, i), now)
        },
{
    assert(ss.subrange(0, i + 1).drop_last() =~= ss.subrange(0, i));
}

impl Session {
    /// A field-by-field copy.
    pub fn duplicate(&self) -> (r: Session)
        ensures
            r == *self,
    {
        Session {
            token: self.token.clone(),
            identity: self.identity.duplicate(),
            created_at: self.created_at,
            expires_at: self.expires_at,
        }
    }
}

/// A valid token yields the same identity at every time before its
/// session's expiry and is refused at and after it; the sweep made by an
/// earlier validation changes neither answer.
pub proof fn lemma_token_stable(ss: Seq<Session>, i: int, earlier: i64, now: i64)
    requires
        tokens_unique(ss),
        0 <= i < ss.len(),
        earlier <= now,
    ensures
        valid_at(ss, ss[i].token@, now) <==> now < ss[i].expires_at,
        forall|id: Identity|
            #[trigger] grants(ss, ss[i].token@, now, id) <==> now < ss[i].expires_at && id
                == ss[i].identity,
        tokens_unique(swept(ss, earlier)),
        valid_at(swept(ss, earlier), ss[i].token@, now) <==> valid_at(ss, ss[i].token@, now),
        forall|id: Identity|
            #[trigger] grants(swept(ss, earlier), ss[i].token@, now, id) <==> grants(
                ss,
                ss[i].token@,
                now,
                id,
            ),
{
    let t = ss[i].token@;
    let sw = swept(ss, earlier);
    lemma_swept_contains(ss, earlier);
    assert(forall|j: int| 0 <= j < ss.len() && #[trigger] ss[j].token@ == t ==> j == i);
    if now < ss[i].expires_at {
        assert(ss[i].token@ == t);
    }
    assert forall|id: Identity|
        #[trigger] grants(sw, t, now, id) <==> grants(ss, t, now, id) by {
        if grants(sw, t, now, id) {
            let j = choose|j: int|
                0 <= j < sw.len() && #[trigger] sw[j].token@ == t && live_at(sw[j], now)
                    && sw[j].identity == id;
            assert(sw.contains(sw[j]));
            let m = choose|m: int| 0 <= m < ss.len() && ss[m] == sw[j];
            assert(ss[m].token@ == t);
        }
        if grants(ss, t, now, id) {
            let j = choose|j: int|
                0 <= j < ss.len() && #[trigger] ss[j].token@ == t && live_at(ss[j], now)
                    && ss[j].identity == id;
            assert(ss.contains(ss[j]));
            assert(sw.contains(ss[j]));
            let m = choose|m: int| 0 <= m < sw.len() && sw[m] == ss[j];
            assert(sw[m].token@ == t);
        }
    }
    if valid_at(sw, t, now) {
        let j = choose|j: int| 0 <= j < sw.len() && #[trigger] sw[j].token@ == t && live_at(sw[j], now);
        assert(grants(sw, t, now, sw[j].identity));
        assert(grants(ss, t, now, sw[j].identity));
        let m = choose|m: int|
            0 <= m < ss.len() && #[trigger] ss[m].token@ == t && live_at(ss[m], now)
                && ss[m].identity == sw[j].identity;
        assert(valid_at(ss, t, now));
    }
    if valid_at(ss, t, now) {
        let j = choose|j: int| 0 <= j < ss.len() && #[trigger] ss[j].token@ == t && live_at(ss[j], now);
        assert(grants(ss, t, now, ss[j].identity));
        assert(grants(sw, t, now, ss[j].identity));
        let m = choose|m: int|
            0 <= m < sw.len() && #[trigger] sw[m].token@ == t && live_at(sw[m], now)
                && sw[m].identity == ss[j].identity;
        assert(valid_at(sw, t, now));
    }
}

/// Lifetime of a session of role class `role`, in seconds.
pub fn session_lifetime(role: Role) -> (r: i64)
    ensures
        r == lifetime(role),
{
    match role {
        Role::Member => MEMBER_SESSION_SECS,
        Role::Admin => ADMIN_SESSION_SECS,
    }
}

/// The session store. A token maps to at most one session, and an expired
/// session is never honoured.
pub struct SessionAuthority {
    sessions: Vec<Session>,
}

impl View for SessionAuthority {
    type V = Seq<Session>;

    closed spec fn view(&self) -> Seq<Session> {
        self.sessions@
    }
}

impl SessionAuthority {
    pub open spec fn wf(&self) -> bool {
        tokens_unique(self@)
    }

    pub fn new() -> (r: SessionAuthority)
        ensures
            r@ == Seq::<Session>::empty(),
            r.wf(),
    {
        SessionAuthority { sessions: Vec::new() }
    }

    /// Number of sessions held, expired ones not yet swept included.
    pub fn len(&self) -> (r: usize)
        ensures
            r == self@.len(),
    {
        self.sessions.len()
    }

    fn find(&self, token: &str) -> (r: Option<usize>)
        requires
            self.wf(),
        ensures
            r is None <==> !has_token(self@, token@),
            r matches Some(i) ==> i < self@.len() && self@[i as int].token@ == token@,
    {
        let mut i: usize = 0;
        while i < self.sessions.len()
            invariant
                0 <= i <= self@.len(),
                self@ == self.sessions@,
                forall|j: int| 0 <= j < i ==> self@[j].token@ != token@,
            decreases self@.len() - i,
        {
            if same_text(self.sessions[i].token.as_str(), token) {
                return Some(i);
            }
            i = i + 1;
        }
        None
    }

    /// Drops every session that has expired at `now`.
    pub fn sweep(&mut self, now: i64)
        requires
            old(self).wf(),
        ensures
            final(self).wf(),
            final(self)@ == swept(old(self)@, now),
    {
        let mut kept: Vec<Session> = Vec::new();
        let mut i: usize = 0;
        while i < self.sessions.len()
            invariant
                0 <= i <= self@.len(),
                self@ == self.sessions@,
                self@ == old(self)@,
                kept@ == swept(self@.subrange(0, i as int), now),
            decreases self@.len() - i,
        {
            proof {
                lemma_swept_step(self@, now, i as int);
            }
            if now < self.sessions[i].expires_at {
                kept.push(self.sessions[i].duplicate());
            }
            i = i + 1;
        }
        proof {
            assert(self@.subrange(0, self@.len() as int) =~= self@);
            lemma_swept_contains(self@, now);
        }
        self.sessions = kept;
    }

    /// Binds a new session for `identity`, created at `now`, to `token`.
    pub fn create_with_token(&mut self, identity: Identity, token: String, now: i64) -> (r: Result<(), SessionError>)
        requires
            old(self).wf(),
        ensures
            final(self).wf(),
            r == Err::<(), SessionError>(SessionError::DuplicateToken) <==> has_token(old(self)@, token@),
            r == Err::<(), SessionError>(SessionError::ClockOutOfRange) <==> !has_token(old(self)@, token@)
                && now + lifetime(identity.role) > i64::MAX,
            r is Err ==> final(self)@ == old(self)@,
            r is Ok ==> final(self)@ == old(self)@.push(fresh_session(token, identity, now)),
    {
        if self.find(token.as_str()).is_some() {
            return Err(SessionError::DuplicateToken);
        }
        let ttl = session_lifetime(identity.role);
        if now > i64::MAX - ttl {
            return Err(SessionError::ClockOutOfRange);
        }
        let ghost before = self@;
        let s = Session { token, identity, created_at: now, expires_at: now + ttl };
        self.sessions.push(s);
        assert(tokens_unique(self@)) by {
            assert(forall|i: int| 0 <= i < before.len() ==> self@[i] == before[i]);
        }
        Ok(())
    }

    /// Opens a session for `identity` at `now` under a fresh random token,
    /// which is returned.
    pub fn create(&mut self, identity: Identity, now: i64) -> (r: Result<String, SessionError>)
        requires
            old(self).wf(),
        ensures
            final(self).wf(),
            r is Err ==> final(self)@ == old(self)@,
            r matches Ok(t) ==> final(self)@ == old(self)@.push(fresh_session(t, identity, now)),
            r matches Err(e) && e == SessionError::ClockOutOfRange ==> now + lifetime(identity.role) > i64::MAX,
            now + lifetime(identity.role) > i64::MAX ==> r is Err,
            old(self)@.len() == 0 && now + lifetime(identity.role) <= i64::MAX ==> r is Ok,
    {
        let token = random_uuid();
        match self.create_with_token(identity, token.clone(), now) {
            Ok(()) => Ok(token),
            Err(e) => Err(e),
        }
    }

    /// Checks `token` at time `now`. Expired sessions are swept first; the
    /// identity of the session holding `token` is returned while it is live.
    pub fn validate(&mut self, token: &str, now: i64) -> (r: Result<Identity, AuthError>)
        requires
            old(self).wf(),
        ensures
            final(self).wf(),
            final(self)@ == swept(old(self)@, now),
            r is Ok <==> valid_at(old(self)@, token@, now),
            r matches Ok(id) ==> grants(old(self)@, token@, now, id),
    {
        let found = match self.find(token) {
            None => Err(AuthError::Unauthenticated),
            Some(i) => {
                proof {
                    assert(forall|j: int|
                        0 <= j < self@.len() && #[trigger] self@[j].token@ == token@ ==> j == i);
                }
                if now < self.sessions[i].expires_at {
                    Ok(self.sessions[i].identity.duplicate())
                } else {
                    Err(AuthError::Unauthenticated)
                }
            },
        };
        proof {
            if valid_at(self@, token@, now) {
                let k = choose|k: int|
                    0 <= k < self@.len() && #[trigger] self@[k].token@ == token@ && live_at(self@[k], now);
                assert(has_token(self@, token@));
            }
        }
        self.sweep(now);
        found
    }

    /// Checks `token` against the current time.
    pub fn validate_now(&mut self, token: &str) -> (r: Result<Identity, AuthError>)
        requires
            old(self).wf(),
        ensures
            final(self).wf(),
            exists|now: i64|
                {
                    &&& final(self)@ == swept(old(self)@, now)
                    &&& (r is Ok <==> valid_at(old(self)@, token@, now))
                    &&& (r matches Ok(id) ==> grants(old(self)@, token@, now, id))
                },
    {
        let now = unix_now();
        self.validate(token, now)
    }

    /// Authenticates a request by its Cookie headers at time `now`, looking
    /// for the session cookie of role class `first` before the other. A
    /// request without either cookie is refused and changes nothing.
    pub fn authenticate(&mut self, cookie_headers: &Vec<String>, first: Role, now: i64) -> (r: Result<
        Identity,
        AuthError,
    >)
        requires
            old(self).wf(),
        ensures
            final(self).wf(),
            presented_token(cookie_headers@, first) is None ==> r is Err && final(self)@ == old(
                self,
            )@,
            presented_token(cookie_headers@, first) matches Some(t) ==> {
                &&& final(self)@ == swept(old(self)@, now)
                &&& (r is Ok <==> valid_at(old(self)@, t, now))
                &&& (r matches Ok(id) ==> grants(old(self)@, t, now, id))
            },
    {
        let other = match first {
            Role::Member => Role::Admin,
            Role::Admin => Role::Member,
        };
        let token = match get_cookie(cookie_headers, session_cookie_name(first)) {
            Some(t) => Some(t),
            None => get_cookie(cookie_headers, session_cookie_name(other)),
        };
        match token {
            None => Err(AuthError::Unauthenticated),
            Some(t) => self.validate(t.as_str(), now),
        }
    }

    /// As `authenticate`, at the current time.
    pub fn authenticate_now(&mut self, cookie_headers: &Vec<String>, first: Role) -> (r: Result<
        Identity,
        AuthError,
    >)
        requires
            old(self).wf(),
        ensures
            final(self).wf(),
            presented_token(cookie_headers@, first) is None ==> r is Err && final(self)@ == old(
                self,
            )@,
            presented_token(cookie_headers@, first) matches Some(t) ==> exists|now: i64|
                {
                    &&& final(self)@ == swept(old(self)@, now)
                    &&& (r is Ok <==> valid_at(old(self)@, t, now))
                    &&& (r matches Ok(id) ==> grants(old(self)@, t, now, id))
                },
    {
        let now = unix_now();
        self.authenticate(cookie_headers, first, now)
    }

    /// Puts back a session kept from an earlier run, as it was.
    pub fn restore(&mut self, session: Session) -> (r: Result<(), SessionError>)
        requires
            old(self).wf(),
        ensures
            final(self).wf(),
            r is Err <==> has_token(old(self)@, session.token@),
            r is Err ==> r == Err::<(), SessionError>(SessionError::DuplicateToken) && final(self)@
                == old(self)@,
            r is Ok ==> final(self)@ == old(self)@.push(session),
    {
        if self.find(session.token.as_str()).is_some() {
            return Err(SessionError::DuplicateToken);
        }
        let ghost before = self@;
        self.sessions.push(session);
        assert(tokens_unique(self@)) by {
            assert(forall|i: int| 0 <= i < before.len() ==> self@[i] == before[i]);
        }
        Ok(())
    }

    /// Authenticates a request as a session of role class `role` only: the
    /// token is read from that role's cookie alone, and a live session of
    /// another role is refused. Expired sessions are swept whenever a token
    /// was presented.
    pub fn authenticate_role(&mut self, cookie_headers: &Vec<String>, role: Role, now: i64) -> (r:
        Result<Identity, AuthError>)
        requires
            old(self).wf(),
        ensures
            final(self).wf(),
            cookie_value(cookie_headers@, cookie_name(role)) is None ==> r is Err && final(self)@
                == old(self)@,
            cookie_value(cookie_headers@, cookie_name(role)) matches Some(t) ==> {
                &&& final(self)@ == swept(old(self)@, now)
                &&& (r is Ok <==> exists|id: Identity|
                    #[trigger] grants(old(self)@, t, now, id) && id.role == role)
                &&& (r matches Ok(id) ==> grants(old(self)@, t, now, id) && id.role == role)
            },
    {
        let token = match get_cookie(cookie_headers, session_cookie_name(role)) {
            None => {
                return Err(AuthError::Unauthenticated);
            },
            Some(t) => t,
        };
        let ghost ss = self@;
        match self.validate(token.as_str(), now) {
            Err(e) => {
                proof {
                    assert forall|id: Identity| !grants(ss, token@, now, id) by {
                        if grants(ss, token@, now, id) {
                            let k = choose|k: int|
                                0 <= k < ss.len() && #[trigger] ss[k].token@ == token@ && live_at(
                                    ss[k],
                                    now,
                                ) && ss[k].identity == id;
                            assert(valid_at(ss, token@, now));
                        }
                    }
                }
                Err(e)
            },
            Ok(id) => {
                if id.role == role {
                    Ok(id)
                } else {
                    proof {
                        assert forall|other: Identity|
                            grants(ss, token@, now, other) implies other == id by {
                            let a = choose|a: int|
                                0 <= a < ss.len() && #[trigger] ss[a].token@ == token@ && live_at(
                                    ss[a],
                                    now,
                                ) && ss[a].identity == id;
                            let b = choose|b: int|
                                0 <= b < ss.len() && #[trigger] ss[b].token@ == token@ && live_at(
                                    ss[b],
                                    now,
                                ) && ss[b].identity == other;
                            assert(a == b);
                        }
                    }
                    Err(AuthError::Unauthenticated)
                }
            },
        }
    }

    /// As `authenticate_role`, at the current time.
    pub fn authenticate_role_now(&mut self, cookie_headers: &Vec<String>, role: Role) -> (r: Result<
        Identity,
        AuthError,
    >)
        requires
            old(self).wf(),
        ensures
            final(self).wf(),
            cookie_value(cookie_headers@, cookie_name(role)) is None ==> r is Err && final(self)@
                == old(self)@,
            cookie_value(cookie_headers@, cookie_name(role)) matches Some(t) ==> exists|now: i64|
                {
                    &&& final(self)@ == swept(old(self)@, now)
                    &&& (r is Ok <==> exists|id: Identity|
                        #[trigger] grants(old(self)@, t, now, id) && id.role == role)
                    &&& (r matches Ok(id) ==> grants(old(self)@, t, now, id) && id.role == role)
                },
    {
        let now = unix_now();
        self.authenticate_role(cookie_headers, role, now)
    }

    /// Ends the session holding `token`, if any.
    pub fn revoke(&mut self, token: &str) -> (r: bool)
        requires
            old(self).wf(),
        ensures
            final(self).wf(),
            r == has_token(old(self)@, token@),
            !r ==> final(self)@ == old(self)@,
            r ==> exists|i: int|
                0 <= i < old(self)@.len() && old(self)@[i].token@ == token@ && final(self)@ == old(
                    self,
                )@.remove(i),
    {
        match self.find(token) {
            None => false,
            Some(i) => {
                let ghost before = self@;
                self.sessions.remove(i);
                assert forall|a: int, b: int|
                    0 <= a < self@.len() && 0 <= b < self@.len() && a != b implies self@[a].token@
                        != self@[b].token@ by {
                    let a0 = if a < i { a } else { a + 1 };
                    let b0 = if b < i { b } else { b + 1 };
                    assert(self@[a] == before[a0]);
                    assert(self@[b] == before[b0]);
                }
                true
            },
        }
    }
}

} // verus!
