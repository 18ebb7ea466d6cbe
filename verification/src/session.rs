//! Sessions: which tokens stand for which user, and until when.
//!
//! A session is created by a login and ends when it is revoked or when its
//! time to live has passed. No timer removes an expired session. A lookup
//! that finds a live session is one step into the table; any other lookup
//! goes through the table and removes every session that has expired.

use crate::clock::current_time_millis;
use crate::errors::SessionError;
use crate::token::{is_generated, LoginToken};
use vstd::hash_map::StringHashMap;
use vstd::prelude::*;
use vstd::string::StringExecFns;

verus! {

/// How many tokens are drawn at most for one session.
pub const ISSUE_ATTEMPTS: usize = 4;

/// How long a session lasts: 20 minutes, in milliseconds.
pub const SESSION_TTL_MILLIS: i64 = 1_200_000;

/// The last instant at which a session created at `now` is still valid:
/// `now` plus the time to live, or the end of the clock's range if that
/// comes first.
pub open spec fn expiry_of(now: i64) -> i64 {
    if now + SESSION_TTL_MILLIS > i64::MAX {
        i64::MAX
    } else {
        (now + SESSION_TTL_MILLIS) as i64
    }
}

/// One login: the user, the token handed out, and the last instant at which
/// the token is accepted.
#[derive(Debug)]
pub struct ActiveLogin {
    pub username: String,
    pub token: LoginToken,
    pub valid_until: i64,
}

/// What the table knows of a session, apart from its token.
pub struct SessionView {
    pub username: Seq<char>,
    pub expires_at: i64,
}

impl View for ActiveLogin {
    type V = SessionView;

    open spec fn view(&self) -> SessionView {
        SessionView { username: self.username@, expires_at: self.valid_until }
    }
}

impl ActiveLogin {
    /// The login of `username` under `token`, created at `now`.
    pub fn new(username: &str, token: LoginToken, now: i64) -> (login: ActiveLogin)
        ensures
            login.username@ == username@,
            login.token == token,
            login.valid_until == expiry_of(now),
    {
        let valid_until = if now > i64::MAX - SESSION_TTL_MILLIS {
            i64::MAX
        } else {
            now + SESSION_TTL_MILLIS
        };
        ActiveLogin { username: String::from_str(username), token, valid_until }
    }

    /// Whether the login has expired at `now`.
    pub fn is_expired(&self, now: i64) -> (expired: bool)
        ensures
            expired == (now > self.valid_until),
    {
        now > self.valid_until
    }
}

/// The table of sessions as contracts see it: from token to session.
pub type SessionTable = Map<Seq<char>, SessionView>;

/// Whether `token` stands for a session that has not expired at `now`.
pub open spec fn is_live(sessions: SessionTable, token: Seq<char>, now: i64) -> bool {
    sessions.contains_key(token) && now <= sessions[token].expires_at
}

/// What a lookup of `token` at `now` answers.
pub open spec fn lookup(sessions: SessionTable, token: Seq<char>, now: i64) -> Result<
    Seq<char>,
    SessionError,
> {
    if !sessions.contains_key(token) {
        Err(SessionError::SessionNotFound)
    } else if now > sessions[token].expires_at {
        Err(SessionError::SessionExpired)
    } else {
        Ok(sessions[token].username)
    }
}

/// The sessions of `sessions` that have not expired at `now`.
pub open spec fn without_expired(sessions: SessionTable, now: i64) -> SessionTable {
    Map::new(
        |token: Seq<char>| sessions.contains_key(token) && now <= sessions[token].expires_at,
        |token: Seq<char>| sessions[token],
    )
}

/// The table after a lookup of `token` at `now`. A lookup that finds a live
/// session changes nothing. Any other lookup goes through the table, and
/// every session that has expired at `now` is gone afterwards, the one
/// under the token among them.
pub open spec fn after_lookup(sessions: SessionTable, token: Seq<char>, now: i64) -> SessionTable {
    if is_live(sessions, token, now) {
        sessions
    } else {
        without_expired(sessions, now)
    }
}

/// The table after `token` was offered at `now` for a new session of
/// `username`: unchanged where the token stands for a live session, else
/// with the new session under the token.
pub open spec fn after_issue(
    sessions: SessionTable,
    token: Seq<char>,
    username: Seq<char>,
    now: i64,
) -> SessionTable {
    if is_live(sessions, token, now) {
        sessions
    } else {
        sessions.insert(token, SessionView { username, expires_at: expiry_of(now) })
    }
}

/// Whether `after` is what `before` becomes when `token` is offered at `now`
/// for a session of `username` and accepted.
pub open spec fn is_issue(
    before: SessionTable,
    after: SessionTable,
    token: Seq<char>,
    username: Seq<char>,
    now: i64,
) -> bool {
    !is_live(before, token, now) && after == after_issue(before, token, username, now)
}

/// Whether `key` is one of `tokens`.
spec fn listed(tokens: Seq<String>, key: Seq<char>) -> bool {
    exists|i: int| 0 <= i < tokens.len() && (#[trigger] tokens[i])@ == key
}

/// The set of sessions, keyed by token. Beside the table stands the list of
/// its tokens, by which the table can be gone through.
pub struct AuthSessionManager {
    sessions: StringHashMap<ActiveLogin>,
    tokens: Vec<String>,
}

impl View for AuthSessionManager {
    type V = SessionTable;

    closed spec fn view(&self) -> SessionTable {
        self.sessions@.map_values(|login: ActiveLogin| login@)
    }
}

impl AuthSessionManager {
    /// Every stored login carries the token it is stored under, and the
    /// list holds the tokens of the table, each once.
    pub closed spec fn wf(&self) -> bool {
        &&& forall|k: Seq<char>| #[trigger]
            self.sessions@.contains_key(k) ==> self.sessions@[k].token@ == k && listed(
                self.tokens@,
                k,
            )
        &&& forall|i: int|
            0 <= i < self.tokens@.len() ==> self.sessions@.contains_key(
                (#[trigger] self.tokens@[i])@,
            )
        &&& forall|i: int, j: int|
            0 <= i < j < self.tokens@.len() ==> (#[trigger] self.tokens@[i])@ != (
            #[trigger] self.tokens@[j])@
    }

    /// A manager with no session.
    pub fn new() -> (manager: AuthSessionManager)
        ensures
            manager.wf(),
            manager@ == SessionTable::empty(),
    {
        let manager = AuthSessionManager { sessions: StringHashMap::new(), tokens: Vec::new() };
        assert(manager@ =~= SessionTable::empty());
        manager
    }

    /// Offers `token` for a new session of `username`, created at `now`.
    /// The token is refused, and nothing changes, where it stands for a
    /// session that is still live: no session is ever overwritten. A session
    /// under the token that has expired gives way to the new one.
    pub fn issue_with(&mut self, username: &str, token: &LoginToken, now: i64) -> (issued: bool)
        requires
            old(self).wf(),
        ensures
            final(self).wf(),
            issued == !is_live(old(self)@, token@, now),
            final(self)@ == after_issue(old(self)@, token@, username@, now),
    {
        let state = match self.sessions.get(token.0.as_str()) {
            Some(login) => Some(login.is_expired(now)),
            None => None,
        };
        match state {
            Some(false) => false,
            _ => {
                let login = ActiveLogin::new(username, token.clone(), now);
                self.sessions.insert(token.0.clone(), login);
                if state.is_none() {
                    self.tokens.push(token.0.clone());
                }
                proof {
                    assert(self@ =~= after_issue(old(self)@, token@, username@, now));
                    let before = old(self).tokens@;
                    let after = self.tokens@;
                    assert forall|i: int| 0 <= i < before.len() implies #[trigger] after[i]
                        == before[i] by {}
                    assert forall|k: Seq<char>| #[trigger]
                        self.sessions@.contains_key(k) implies self.sessions@[k].token@ == k
                        && listed(after, k) by {
                        if k == token@ {
                            if state is None {
                                assert(after[before.len() as int]@ == k);
                            } else {
                                assert(listed(before, k));
                                let at = choose|i: int|
                                    0 <= i < before.len() && (#[trigger] before[i])@ == k;
                                assert(after[at]@ == k);
                            }
                        } else {
                            assert(old(self).sessions@.contains_key(k));
                            assert(listed(before, k));
                            let at = choose|i: int|
                                0 <= i < before.len() && (#[trigger] before[i])@ == k;
                            assert(after[at]@ == k);
                        }
                    }
                    assert forall|i: int, j: int| 0 <= i < j < after.len() implies (
                    #[trigger] after[i])@ != (#[trigger] after[j])@ by {
                        if j < before.len() {
                            assert(before[i]@ != before[j]@);
                        } else {
                            assert(old(self).sessions@.contains_key(before[i]@));
                        }
                    }
                    assert forall|i: int| 0 <= i < after.len() implies self.sessions@.contains_key(
                        (#[trigger] after[i])@,
                    ) by {
                        if i < before.len() {
                            assert(old(self).sessions@.contains_key(before[i]@));
                        }
                    }
                }
                true
            },
        }
    }

    /// Creates a session for `username` under a fresh random token, at the
    /// present time, and returns the token. A token that stands for a live
    /// session is not used: another is drawn, up to `ISSUE_ATTEMPTS` times
    /// in all. It fails in one event only: every token drawn stood for a
    /// session that was live when it was drawn. Then it returns `None`, and
    /// nothing has changed. Where no token that can be drawn stands for a
    /// session, it cannot fail.
    pub fn issue(&mut self, username: &str) -> (issued: Option<LoginToken>)
        requires
            old(self).wf(),
        ensures
            final(self).wf(),
            issued matches Some(t) ==> is_generated(t@) && exists|now: i64| #[trigger]
                is_issue(old(self)@, final(self)@, t@, username@, now),
            issued is None ==> final(self)@ == old(self)@ && exists|token: Seq<char>, now: i64|
             #[trigger] is_collision(old(self)@, token, now),
    {
        let mut attempt: usize = 0;
        while attempt < ISSUE_ATTEMPTS
            invariant
                attempt <= ISSUE_ATTEMPTS,
                self.wf(),
                self@ == old(self)@,
                attempt > 0 ==> exists|token: Seq<char>, now: i64| #[trigger]
                    is_collision(old(self)@, token, now),
            decreases ISSUE_ATTEMPTS - attempt,
        {
            let token = LoginToken::generate();
            let now = current_time_millis();
            if self.issue_with(username, &token, now) {
                let issued = Some(token);
                assert(is_issue(old(self)@, self@, issued->0@, username@, now));
                return issued;
            }
            assert(is_collision(old(self)@, token@, now));
            attempt += 1;
        }
        None
    }

    /// Resolves `token` at `now` to the user it stands for. Where the token
    /// stands for a live session, that takes one step into the table and
    /// changes nothing. Where the
    /// token stands for no session, or for one that has expired, the whole
    /// table is gone through, and every session that has expired at `now`
    /// is removed.
    pub fn validate(&mut self, token: &LoginToken, now: i64) -> (user: Result<String, SessionError>)
        requires
            old(self).wf(),
        ensures
            final(self).wf(),
            final(self)@ == after_lookup(old(self)@, token@, now),
            match user {
                Ok(name) => lookup(old(self)@, token@, now) == Ok::<Seq<char>, SessionError>(name@),
                Err(e) => lookup(old(self)@, token@, now) == Err::<Seq<char>, SessionError>(e),
            },
    {
        let found = match self.sessions.get(token.0.as_str()) {
            Some(login) => if login.is_expired(now) {
                Err(SessionError::SessionExpired)
            } else {
                Ok(login.username.clone())
            },
            None => Err(SessionError::SessionNotFound),
        };
        if found.is_err() {
            self.prune(now);
        }
        found
    }

    /// Removes every session that has expired at `now`.
    fn prune(&mut self, now: i64)
        requires
            old(self).wf(),
        ensures
            final(self).wf(),
            final(self)@ == without_expired(old(self)@, now),
    {
        let ghost table = self.sessions@;
        let ghost list = self.tokens@;
        let mut kept: Vec<String> = Vec::new();
        let mut i: usize = 0;
        while i < self.tokens.len()
            invariant
                i <= list.len(),
                old(self).wf(),
                table == old(self).sessions@,
                list == old(self).tokens@,
                self.tokens@ == list,
                forall|k: Seq<char>| #[trigger]
                    self.sessions@.contains_key(k) ==> table.contains_key(k) && self.sessions@[k]
                        == table[k],
                forall|j: int|
                    0 <= j < list.len() ==> (self.sessions@.contains_key((#[trigger] list[j])@)
                        <==> (j >= i || now <= table[list[j]@].valid_until)),
                forall|j: int|
                    0 <= j < kept@.len() ==> self.sessions@.contains_key((#[trigger] kept@[j])@)
                        && listed(list.subrange(0, i as int), kept@[j]@),
                forall|j: int|
                    0 <= j < i && now <= table[(#[trigger] list[j])@].valid_until ==> listed(
                        kept@,
                        list[j]@,
                    ),
                forall|a: int, b: int|
                    0 <= a < b < kept@.len() ==> (#[trigger] kept@[a])@ != (#[trigger] kept@[b])@,
            decreases list.len() - i,
        {
            let key = self.tokens[i].clone();
            let ghost held = self.sessions@;
            let ghost kept_before = kept@;
            assert(table.contains_key(list[i as int]@));
            assert(held.contains_key(key@));
            let expired = match self.sessions.get(key.as_str()) {
                Some(login) => login.is_expired(now),
                None => false,
            };
            if expired {
                self.sessions.remove(key.as_str());
            } else {
                kept.push(key);
            }
            proof {
                let seen = list.subrange(0, i as int);
                let next = list.subrange(0, i + 1);
                assert forall|j: int| 0 <= j < list.len() implies (self.sessions@.contains_key(
                    (#[trigger] list[j])@,
                ) <==> (j >= i + 1 || now <= table[list[j]@].valid_until)) by {
                    if j != i {
                        if j < i {
                            assert(list[j]@ != list[i as int]@);
                        } else {
                            assert(list[i as int]@ != list[j]@);
                        }
                        assert(held.contains_key(list[j]@) <==> (j >= i || now
                            <= table[list[j]@].valid_until));
                    }
                }
                assert forall|j: int| 0 <= j < kept@.len() implies self.sessions@.contains_key(
                    (#[trigger] kept@[j])@,
                ) && listed(next, kept@[j]@) by {
                    if j < kept_before.len() {
                        assert(kept@[j] == kept_before[j]);
                        assert(listed(seen, kept_before[j]@));
                        let at = choose|at: int|
                            0 <= at < seen.len() && (#[trigger] seen[at])@ == kept_before[j]@;
                        assert(next[at]@ == kept_before[j]@);
                        assert(list[at]@ != list[i as int]@);
                    } else {
                        assert(next[i as int]@ == key@);
                    }
                }
                assert forall|j: int|
                    0 <= j < i + 1 && now <= table[(#[trigger] list[j])@].valid_until implies listed(
                    kept@,
                    list[j]@,
                ) by {
                    if j < i {
                        assert(listed(kept_before, list[j]@));
                        let at = choose|at: int|
                            0 <= at < kept_before.len() && (#[trigger] kept_before[at])@
                                == list[j]@;
                        assert(kept@[at]@ == list[j]@);
                    } else {
                        assert(kept@[kept_before.len() as int]@ == list[j]@);
                    }
                }
                assert forall|a: int, b: int| 0 <= a < b < kept@.len() implies (
                #[trigger] kept@[a])@ != (#[trigger] kept@[b])@ by {
                    if b < kept_before.len() {
                        assert(kept_before[a]@ != kept_before[b]@);
                    } else {
                        assert(kept@[a] == kept_before[a]);
                        assert(listed(seen, kept_before[a]@));
                        let at = choose|at: int|
                            0 <= at < seen.len() && (#[trigger] seen[at])@ == kept_before[a]@;
                        assert(list[at]@ != list[i as int]@);
                    }
                }
            }
            i += 1;
        }
        self.tokens = kept;
        proof {
            assert forall|k: Seq<char>|
                table.contains_key(k) && now <= table[k].valid_until implies #[trigger] self.sessions@.contains_key(
                k,
            ) by {
                assert(listed(list, k));
                let at = choose|at: int| 0 <= at < list.len() && (#[trigger] list[at])@ == k;
                assert(self.sessions@.contains_key(list[at]@));
            }
            assert forall|k: Seq<char>| #[trigger] self.sessions@.contains_key(k) implies now
                <= table[k].valid_until && listed(self.tokens@, k) by {
                assert(listed(list, k));
                let at = choose|at: int| 0 <= at < list.len() && (#[trigger] list[at])@ == k;
                assert(self.sessions@.contains_key(list[at]@));
            }
            assert(self@ =~= without_expired(old(self)@, now));
        }
    }

    /// Where `token` stands in the list of tokens.
    fn position_of(&self, token: &String) -> (at: Option<usize>)
        ensures
            match at {
                Some(i) => i < self.tokens@.len() && self.tokens@[i as int]@ == token@,
                None => !listed(self.tokens@, token@),
            },
    {
        let mut i: usize = 0;
        while i < self.tokens.len()
            invariant
                i <= self.tokens@.len(),
                forall|j: int| 0 <= j < i ==> (#[trigger] self.tokens@[j])@ != token@,
            decreases self.tokens@.len() - i,
        {
            if self.tokens[i] == *token {
                return Some(i);
            }
            i += 1;
        }
        None
    }

    /// Ends the session under `token`, if there is one.
    pub fn revoke(&mut self, token: &LoginToken)
        requires
            old(self).wf(),
        ensures
            final(self).wf(),
            final(self)@ == old(self)@.remove(token@),
    {
        let at = self.position_of(&token.0);
        self.sessions.remove(token.0.as_str());
        let ghost before = old(self).tokens@;
        match at {
            Some(i) => {
                self.tokens.remove(i);
            },
            None => {},
        }
        proof {
            assert(self@ =~= old(self)@.remove(token@));
            let after = self.tokens@;
            let source = |j: int|
                match at {
                    Some(i) => if j < i {
                        j
                    } else {
                        j + 1
                    },
                    None => j,
                };
            assert forall|j: int| 0 <= j < after.len() implies #[trigger] after[j] == before[source(
                j,
            )] by {}
            assert forall|j: int| 0 <= j < after.len() implies self.sessions@.contains_key(
                (#[trigger] after[j])@,
            ) by {
                let from = source(j);
                assert(old(self).sessions@.contains_key(before[from]@));
                match at {
                    Some(i) => {
                        if from < i {
                            assert(before[from]@ != before[i as int]@);
                        } else {
                            assert(before[i as int]@ != before[from]@);
                        }
                    },
                    None => {
                        assert(before[from]@ != token@);
                    },
                }
            }
            assert forall|a: int, b: int| 0 <= a < b < after.len() implies (#[trigger] after[a])@
                != (#[trigger] after[b])@ by {
                assert(before[source(a)]@ != before[source(b)]@);
            }
            assert forall|k: Seq<char>| #[trigger]
                self.sessions@.contains_key(k) implies self.sessions@[k].token@ == k && listed(
                after,
                k,
            ) by {
                assert(old(self).sessions@.contains_key(k));
                assert(listed(before, k));
                let from = choose|from: int|
                    0 <= from < before.len() && (#[trigger] before[from])@ == k;
                let to = match at {
                    Some(i) => if from < i {
                        from
                    } else {
                        from - 1
                    },
                    None => from,
                };
                assert(after[to]@ == k);
            }
        }
    }

    /// How many sessions the table holds, expired ones that no lookup has
    /// removed yet included.
    pub fn len(&self) -> (n: usize)
        ensures
            n == self@.len(),
    {
        broadcast use vstd::hash_map::group_hash_map_axioms;

        assert(self@.dom() =~= self.sessions@.dom());
        self.sessions.len()
    }
}

/// Whether `token` is of the shape that is drawn and stands for a session
/// that is live at `now`: the event in which no session can be issued under
/// it.
pub open spec fn is_collision(sessions: SessionTable, token: Seq<char>, now: i64) -> bool {
    is_generated(token) && is_live(sessions, token, now)
}

/// A table in which no token that can be drawn stands for a session admits
/// of no collision, at whatever time: issuing a session cannot fail on it.
/// The empty table is such a table.
pub proof fn lemma_no_collision_without_sessions(sessions: SessionTable)
    requires
        forall|token: Seq<char>| is_generated(token) ==> !sessions.contains_key(token),
    ensures
        forall|token: Seq<char>, now: i64| !is_collision(sessions, token, now),
        forall|token: Seq<char>, now: i64| !is_collision(SessionTable::empty(), token, now),
{
}

/// A token resolves to its user as long as its session has not expired, and
/// such a lookup changes nothing. Looked up after the expiry it fails as
/// expired, and the table has forgotten it: every later lookup of it, at
/// whatever time, finds no session.
pub proof fn lemma_session_expires(
    sessions: SessionTable,
    token: Seq<char>,
    early: i64,
    late: i64,
    later: i64,
)
    requires
        sessions.contains_key(token),
        early <= sessions[token].expires_at < late,
    ensures
        lookup(sessions, token, early) == Ok::<Seq<char>, SessionError>(sessions[token].username),
        after_lookup(sessions, token, early) == sessions,
        lookup(sessions, token, late) == Err::<Seq<char>, SessionError>(
            SessionError::SessionExpired,
        ),
        !after_lookup(sessions, token, late).contains_key(token),
        lookup(after_lookup(sessions, token, late), token, later) == Err::<Seq<char>, SessionError>(
            SessionError::SessionNotFound,
        ),
{
}

/// A session that was issued resolves to the user it was issued for, at
/// every instant up to its expiry.
pub proof fn lemma_issued_session_resolves(
    sessions: SessionTable,
    token: Seq<char>,
    username: Seq<char>,
    now: i64,
    at: i64,
)
    requires
        !is_live(sessions, token, now),
        at <= expiry_of(now),
    ensures
        lookup(after_issue(sessions, token, username, now), token, at) == Ok::<
            Seq<char>,
            SessionError,
        >(username),
{
}

/// A revoked token finds no session, whenever it is looked up, and revoking
/// twice is revoking once.
pub proof fn lemma_revoked_session_is_gone(sessions: SessionTable, token: Seq<char>, at: i64)
    ensures
        lookup(sessions.remove(token), token, at) == Err::<Seq<char>, SessionError>(
            SessionError::SessionNotFound,
        ),
        sessions.remove(token).remove(token) == sessions.remove(token),
{
    assert(sessions.remove(token).remove(token) =~= sessions.remove(token));
}

/// Issuing and revoking one token leaves the sessions under every other
/// token as they were. A lookup of one token, at whatever time, leaves every
/// session that is live at that time as it was; what it may remove of
/// another token is a session that has expired, under which a lookup at that
/// time or later finds no user before and after.
pub proof fn lemma_other_sessions_untouched(
    sessions: SessionTable,
    token: Seq<char>,
    other: Seq<char>,
    username: Seq<char>,
    now: i64,
    at: i64,
)
    requires
        other != token,
    ensures
        lookup(after_issue(sessions, token, username, now), other, at) == lookup(
            sessions,
            other,
            at,
        ),
        lookup(sessions.remove(token), other, at) == lookup(sessions, other, at),
        is_live(sessions, other, now) ==> after_lookup(sessions, token, now).contains_key(other)
            && after_lookup(sessions, token, now)[other] == sessions[other],
        now <= at ==> (lookup(after_lookup(sessions, token, now), other, at) is Ok <==> lookup(
            sessions,
            other,
            at,
        ) is Ok),
        now <= at && lookup(sessions, other, at) is Ok ==> lookup(
            after_lookup(sessions, token, now),
            other,
            at,
        ) == lookup(sessions, other, at),
{
}

/// A lookup that finds no live session under its token leaves the table
/// clean: the sessions that are live at that time, each as it was, and no
/// other.
pub proof fn lemma_failed_lookup_cleans(sessions: SessionTable, token: Seq<char>, now: i64)
    requires
        lookup(sessions, token, now) is Err,
    ensures
        after_lookup(sessions, token, now) == without_expired(sessions, now),
        forall|other: Seq<char>|
            after_lookup(sessions, token, now).contains_key(other) <==> is_live(
                sessions,
                other,
                now,
            ),
        forall|other: Seq<char>| #[trigger]
            after_lookup(sessions, token, now).contains_key(other) ==> after_lookup(
                sessions,
                token,
                now,
            )[other] == sessions[other],
        after_lookup(after_lookup(sessions, token, now), token, now) == after_lookup(
            sessions,
            token,
            now,
        ),
{
    let once = after_lookup(sessions, token, now);
    assert(after_lookup(once, token, now) =~= once);
}

/// Sessions issued one after another, each while those before it are still
/// live, have tokens that differ from one another, and the table holds them
/// all in the end. `tables[i]` is the table before the `i`-th issue, and
/// `tables[i + 1]` the table after it.
pub proof fn lemma_issued_tokens_distinct(
    tables: Seq<SessionTable>,
    tokens: Seq<Seq<char>>,
    usernames: Seq<Seq<char>>,
    times: Seq<i64>,
)
    requires
        tables.len() == tokens.len() + 1,
        usernames.len() == tokens.len(),
        times.len() == tokens.len(),
        forall|i: int|
            0 <= i < tokens.len() ==> #[trigger] is_issue(
                tables[i],
                tables[i + 1],
                tokens[i],
                usernames[i],
                times[i],
            ),
        forall|i: int, j: int|
            0 <= i < j < tokens.len() ==> #[trigger] times[j] <= expiry_of(#[trigger] times[i]),
    ensures
        forall|i: int, j: int| 0 <= i < j < tokens.len() ==> tokens[i] != tokens[j],
        forall|i: int|
            0 <= i < tokens.len() ==> tables.last().contains_key(#[trigger] tokens[i])
                && tables.last()[tokens[i]] == (SessionView {
                username: usernames[i],
                expires_at: expiry_of(times[i]),
            }),
{
    assert forall|i: int, j: int| 0 <= i < j < tokens.len() implies tokens[i] != tokens[j] by {
        lemma_issued_session_stays(tables, tokens, usernames, times, i, j);
        assert(is_issue(tables[j], tables[j + 1], tokens[j], usernames[j], times[j]));
    }
    assert forall|i: int| 0 <= i < tokens.len() implies tables.last().contains_key(
        #[trigger] tokens[i],
    ) && tables.last()[tokens[i]] == (SessionView {
        username: usernames[i],
        expires_at: expiry_of(times[i]),
    }) by {
        lemma_issued_session_stays(tables, tokens, usernames, times, i, tokens.len() as int);
    }
}

/// Under the conditions of `lemma_issued_tokens_distinct`, the session of
/// the `i`-th issue is in every later table as it was issued.
proof fn lemma_issued_session_stays(
    tables: Seq<SessionTable>,
    tokens: Seq<Seq<char>>,
    usernames: Seq<Seq<char>>,
    times: Seq<i64>,
    i: int,
    k: int,
)
    requires
        tables.len() == tokens.len() + 1,
        usernames.len() == tokens.len(),
        times.len() == tokens.len(),
        forall|i: int|
            0 <= i < tokens.len() ==> #[trigger] is_issue(
                tables[i],
                tables[i + 1],
                tokens[i],
                usernames[i],
                times[i],
            ),
        forall|i: int, j: int|
            0 <= i < j < tokens.len() ==> #[trigger] times[j] <= expiry_of(#[trigger] times[i]),
        0 <= i < k <= tokens.len(),
    ensures
        tables[k].contains_key(tokens[i]),
        tables[k][tokens[i]] == (SessionView {
            username: usernames[i],
            expires_at: expiry_of(times[i]),
        }),
    decreases k - i,
{
    assert(is_issue(tables[i], tables[i + 1], tokens[i], usernames[i], times[i]));
    if k > i + 1 {
        lemma_issued_session_stays(tables, tokens, usernames, times, i, k - 1);
        let p = k - 1;
        assert(is_issue(tables[p], tables[p + 1], tokens[p], usernames[p], times[p]));
        assert(times[p] <= expiry_of(times[i]));
    }
}

} // verus!
