//! The chat service: the store, the sessions and the live feed behind the
//! operations that a client sees.
//!
//! Every operation but registration and login takes a token, and resolves
//! it before it touches anything else. Operations that depend on the time
//! or on chance come in two forms: one that is handed the instant (and the
//! token to issue), and states exactly what it does; and one that reads the
//! clock (and draws the token) and then does the same.

use crate::auth::{hash_matches, hash_verifiable, MAX_PASSWORD_BYTES};
use crate::broadcast::{BroadcastView, Delivery, MessageBroadcast};
use crate::clock::current_time_millis;
use crate::database::{create_message_at, create_user, delete_user, get_messages};
use crate::database::{check_password, get_user_by_id, get_user_by_name, set_password};
use crate::database::Database;
use crate::store_model::{find_user_by_id, find_user_by_name, select_messages};
use crate::store_model::{DatabaseView, MessageFilter, MESSAGE_LIMIT};
use crate::errors::{AppError, DbError};
use crate::models::{message_views, Message, MessageView, User, UserView};
use crate::session::{after_issue, after_lookup, is_collision, is_issue, is_live, lookup};
use crate::session::{AuthSessionManager, SessionTable};
use crate::token::{base64_no_pad, is_generated, LoginToken, TOKEN_ENTROPY_BYTES};
use std::collections::HashMap;
use vstd::prelude::*;
use vstd::string::StringSliceAdditionalSpecFns;

verus! {

/// What the service stands for in contracts.
pub struct ChatAppView {
    pub db: DatabaseView,
    pub sessions: SessionTable,
    pub hub: BroadcastView,
}

/// A store failure, as the service reports it.
pub open spec fn storage_failure<T>(e: DbError) -> Result<T, AppError> {
    Err(AppError::DatabaseError(e))
}

impl ChatAppView {
    /// The invariant of the service, as far as contracts see it.
    pub open spec fn wf(self) -> bool {
        self.db.wf() && self.hub.wf()
    }

    /// What registering `username` answers: the name must be free, and
    /// there must be ids left for the user and the credential.
    pub open spec fn register_outcome(self, username: Seq<char>) -> Result<(), AppError> {
        match self.db.create_user_outcome(username) {
            Err(e) => storage_failure(e),
            Ok(_) => match self.db.after_create_user(username).set_password_outcome(username) {
                Err(e) => storage_failure(e),
                Ok(_) => Ok(()),
            },
        }
    }

    /// The service after an attempt to register `username` with a password
    /// whose hash is `hash`. Where the credential cannot be stored, the
    /// user is not kept either.
    pub open spec fn after_register(self, username: Seq<char>, hash: Seq<char>) -> ChatAppView {
        let created = self.db.after_create_user(username);
        if self.db.create_user_outcome(username) is Err {
            self
        } else if created.set_password_outcome(username) is Err {
            ChatAppView { db: created.after_delete_user(username), ..self }
        } else {
            ChatAppView { db: created.after_set_password(username, hash), ..self }
        }
    }

    /// Whether `password` is the password of the registered user
    /// `username`.
    pub open spec fn credentials_hold(self, username: Seq<char>, password: Seq<char>) -> bool {
        self.db.check_password_outcome(username, password) == Ok::<bool, DbError>(true)
    }

    /// What a login answers, with `token` as the token to issue: the token,
    /// where the credentials hold and the token is free. Every failure
    /// looks the same.
    pub open spec fn login_outcome(
        self,
        username: Seq<char>,
        password: Seq<char>,
        token: Seq<char>,
        now: i64,
    ) -> Result<Seq<char>, AppError> {
        if self.credentials_hold(username, password) && !is_live(self.sessions, token, now) {
            Ok(token)
        } else {
            Err(AppError::LoginFailed)
        }
    }

    /// The service after a login attempt.
    pub open spec fn after_login(
        self,
        username: Seq<char>,
        password: Seq<char>,
        token: Seq<char>,
        now: i64,
    ) -> ChatAppView {
        if self.credentials_hold(username, password) {
            ChatAppView { sessions: after_issue(self.sessions, token, username, now), ..self }
        } else {
            self
        }
    }

    /// The service after `token` was resolved, or revoked.
    pub open spec fn with_sessions(self, sessions: SessionTable) -> ChatAppView {
        ChatAppView { sessions, ..self }
    }

    /// The user that `token` stands for at `now`.
    pub open spec fn user_for_token(self, token: Seq<char>, now: i64) -> Result<
        UserView,
        AppError,
    > {
        match lookup(self.sessions, token, now) {
            Err(_) => Err(AppError::TokenInvalid),
            Ok(username) => match find_user_by_name(self.db.users, username) {
                None => storage_failure(DbError::UserNotFound),
                Some(user) => Ok(user),
            },
        }
    }

    /// What sending `text` under `token` at `now` answers: the stored
    /// message.
    pub open spec fn send_message_outcome(self, token: Seq<char>, text: Seq<char>, now: i64) -> Result<
        MessageView,
        AppError,
    > {
        match self.user_for_token(token, now) {
            Err(e) => Err(e),
            Ok(user) => match self.db.create_message_outcome(text, user.id, now) {
                Err(e) => storage_failure(e),
                Ok(message) => Ok(message),
            },
        }
    }

    /// The service after an attempt to send `text` under `token` at `now`:
    /// the token was looked up; where the message was stored, it was then
    /// published.
    pub open spec fn after_send_message(self, token: Seq<char>, text: Seq<char>, now: i64) -> ChatAppView {
        let sessions = after_lookup(self.sessions, token, now);
        match self.send_message_outcome(token, text, now) {
            Err(_) => ChatAppView { sessions, ..self },
            Ok(message) => ChatAppView {
                db: self.db.after_create_message(text, message.userid, now),
                sessions,
                hub: self.hub.after_publish(message),
            },
        }
    }

    /// What reading the messages under `token` at `now` answers.
    pub open spec fn get_messages_outcome(self, token: Seq<char>, filter: MessageFilter, now: i64) -> Result<
        Seq<MessageView>,
        AppError,
    > {
        match lookup(self.sessions, token, now) {
            Err(_) => Err(AppError::TokenInvalid),
            Ok(_) => Ok(select_messages(self.db.messages, filter, MESSAGE_LIMIT as int)),
        }
    }

    /// What subscribing to the feed under `token` at `now` answers: the id
    /// of the new listener, if the hub has one left.
    pub open spec fn subscribe_outcome(self, token: Seq<char>, now: i64) -> Result<
        Option<u64>,
        AppError,
    > {
        match lookup(self.sessions, token, now) {
            Err(_) => Err(AppError::TokenInvalid),
            Ok(_) => Ok(self.hub.subscribe_outcome()),
        }
    }

    /// The service after an attempt to subscribe under `token` at `now`.
    pub open spec fn after_subscribe(self, token: Seq<char>, now: i64) -> ChatAppView {
        let sessions = after_lookup(self.sessions, token, now);
        match lookup(self.sessions, token, now) {
            Err(_) => ChatAppView { sessions, ..self },
            Ok(_) => ChatAppView { sessions, hub: self.hub.after_subscribe(), ..self },
        }
    }
}

/// Whether `after` is what `before` becomes when `username` is registered
/// with `password`, with `outcome` as the answer and `hash` as the hash that
/// was made of the password, if one was stored.
pub open spec fn is_registration(
    before: ChatAppView,
    after: ChatAppView,
    outcome: Result<(), AppError>,
    username: Seq<char>,
    password: Seq<char>,
    hash: Seq<char>,
) -> bool {
    &&& outcome == before.register_outcome(username)
    &&& after == before.after_register(username, hash)
    &&& outcome is Ok ==> hash_verifiable(hash) && hash_matches(password, hash)
}

/// Whether `after` is what `before` becomes when `username` logs in at
/// `now` with `token` as the token to issue, with `outcome` as the answer.
pub open spec fn is_login(
    before: ChatAppView,
    after: ChatAppView,
    outcome: Result<Seq<char>, AppError>,
    username: Seq<char>,
    password: Seq<char>,
    token: Seq<char>,
    now: i64,
) -> bool {
    outcome == before.login_outcome(username, password, token, now) && after == before.after_login(
        username,
        password,
        token,
        now,
    )
}

/// Whether `after` is what `before` becomes when `token` is looked up at
/// `now`, with `name` as the answer.
pub open spec fn is_lookup(
    before: ChatAppView,
    after: ChatAppView,
    name: Option<Seq<char>>,
    token: Seq<char>,
    now: i64,
) -> bool {
    &&& name == (match lookup(before.sessions, token, now) {
        Ok(username) => Some(username),
        Err(_) => None::<Seq<char>>,
    })
    &&& after == before.with_sessions(after_lookup(before.sessions, token, now))
}

/// Whether `after` is what `before` becomes when the user of `token` is
/// looked up at `now`, with `outcome` as the answer.
pub open spec fn is_user_lookup(
    before: ChatAppView,
    after: ChatAppView,
    outcome: Result<UserView, AppError>,
    token: Seq<char>,
    now: i64,
) -> bool {
    outcome == before.user_for_token(token, now) && after == before.with_sessions(
        after_lookup(before.sessions, token, now),
    )
}

/// Whether `after` is what `before` becomes when `text` is sent under
/// `token` at `now`, with `outcome` as the answer.
pub open spec fn is_sending(
    before: ChatAppView,
    after: ChatAppView,
    outcome: Result<MessageView, AppError>,
    token: Seq<char>,
    text: Seq<char>,
    now: i64,
) -> bool {
    outcome == before.send_message_outcome(token, text, now) && after == before.after_send_message(
        token,
        text,
        now,
    )
}

/// Whether `after` is what `before` becomes when the messages are read
/// under `token` at `now`, with `outcome` as the answer.
pub open spec fn is_reading(
    before: ChatAppView,
    after: ChatAppView,
    outcome: Result<Seq<MessageView>, AppError>,
    token: Seq<char>,
    filter: MessageFilter,
    now: i64,
) -> bool {
    outcome == before.get_messages_outcome(token, filter, now) && after == before.with_sessions(
        after_lookup(before.sessions, token, now),
    )
}

/// Whether `after` is what `before` becomes when a listener subscribes
/// under `token` at `now`, with `outcome` as the answer.
pub open spec fn is_subscription(
    before: ChatAppView,
    after: ChatAppView,
    outcome: Result<Option<u64>, AppError>,
    token: Seq<char>,
    now: i64,
) -> bool {
    outcome == before.subscribe_outcome(token, now) && after == before.after_subscribe(token, now)
}

/// An answer that holds a token, as contracts see it.
pub open spec fn token_view(r: Result<LoginToken, AppError>) -> Result<Seq<char>, AppError> {
    match r {
        Ok(token) => Ok(token@),
        Err(e) => Err(e),
    }
}

/// An answer that holds a user, as contracts see it.
pub open spec fn user_view(r: Result<User, AppError>) -> Result<UserView, AppError> {
    match r {
        Ok(user) => Ok(user@),
        Err(e) => Err(e),
    }
}

/// An answer that holds a message, as contracts see it.
pub open spec fn message_view(r: Result<Message, AppError>) -> Result<MessageView, AppError> {
    match r {
        Ok(message) => Ok(message@),
        Err(e) => Err(e),
    }
}

/// An answer that holds messages, as contracts see it.
pub open spec fn messages_view(r: Result<Vec<Message>, AppError>) -> Result<
    Seq<MessageView>,
    AppError,
> {
    match r {
        Ok(messages) => Ok(message_views(messages@)),
        Err(e) => Err(e),
    }
}

/// The names of the users with the ids `ids`: for each id, the name of the
/// user that has it, if one has.
pub open spec fn usernames_of(users: Seq<UserView>, ids: Seq<i32>) -> Map<i32, Option<Seq<char>>> {
    Map::new(
        |id: i32| ids.contains(id),
        |id: i32|
            match find_user_by_id(users, id) {
                Some(user) => Some(user.username),
                None => None,
            },
    )
}

/// A name that may be there, as contracts see it.
pub open spec fn name_view(name: Option<String>) -> Option<Seq<char>> {
    match name {
        Some(name) => Some(name@),
        None => None,
    }
}

/// The chat service.
pub struct ChatApp {
    db: Database,
    sessions: AuthSessionManager,
    broadcast: MessageBroadcast,
}

impl View for ChatApp {
    type V = ChatAppView;

    closed spec fn view(&self) -> ChatAppView {
        ChatAppView { db: self.db@, sessions: self.sessions@, hub: self.broadcast@ }
    }
}

impl ChatApp {
    /// The invariant of the service.
    pub closed spec fn wf(&self) -> bool {
        self.db@.wf() && self.sessions.wf() && self.broadcast@.wf()
    }

    /// What the invariant says of the view.
    pub proof fn lemma_wf(&self)
        requires
            self.wf(),
        ensures
            self@.wf(),
    {
    }

    /// A service with an empty store, no session and no listener.
    pub fn new() -> (r: Result<ChatApp, AppError>)
        ensures
            r matches Ok(app) && app.wf() && app@ == (ChatAppView {
                db: DatabaseView::empty(),
                sessions: SessionTable::empty(),
                hub: BroadcastView::empty(),
            }),
    {
        Ok(ChatApp::with_database(Database::new()))
    }

    /// A service over the store `db`, with no session and no listener.
    pub fn with_database(db: Database) -> (app: ChatApp)
        requires
            db@.wf(),
        ensures
            app.wf(),
            app@ == (ChatAppView {
                db: db@,
                sessions: SessionTable::empty(),
                hub: BroadcastView::empty(),
            }),
    {
        ChatApp { db, sessions: AuthSessionManager::new(), broadcast: MessageBroadcast::new() }
    }

    /// The store of the service.
    pub fn database(&self) -> (db: &Database)
        requires
            self.wf(),
        ensures
            db@ == self@.db,
            db@.wf(),
    {
        &self.db
    }

    /// The store of the service, to administer it: to rename or delete a
    /// user, or to set a password. The store's own operations keep its
    /// invariant, and with it the service's; the sessions and the feed are
    /// not touched.
    pub fn database_mut(&mut self) -> (db: &mut Database)
        requires
            old(self).wf(),
        ensures
            db@ == old(self)@.db,
            db@.wf(),
            final(self)@ == (ChatAppView { db: final(db)@, ..old(self)@ }),
            final(db)@.wf() ==> final(self).wf(),
    {
        &mut self.db
    }

    /// Registers a user: creates it and sets its password. Whatever salt
    /// the hasher draws, the stored hash is one that the password matches.
    pub fn register(&mut self, username: &str, password: &str) -> (r: Result<(), AppError>)
        requires
            old(self).wf(),
            password.spec_bytes().len() <= MAX_PASSWORD_BYTES,
        ensures
            final(self).wf(),
            r == old(self)@.register_outcome(username@),
            exists|hash: Seq<char>| #[trigger]
                is_registration(old(self)@, final(self)@, r, username@, password@, hash),
    {
        if let Err(e) = create_user(&mut self.db, username) {
            assert(is_registration(
                old(self)@,
                self@,
                Err(AppError::DatabaseError(e)),
                username@,
                password@,
                Seq::empty(),
            ));
            return Err(AppError::DatabaseError(e));
        }
        let ghost created = self.db@;
        match set_password(&mut self.db, username, password) {
            Ok(()) => {
                proof {
                    let hash = choose|hash: Seq<char>|
                        hash_verifiable(hash) && hash_matches(password@, hash) && self.db@
                            == #[trigger] created.after_set_password(username@, hash);
                    assert(is_registration(old(self)@, self@, Ok(()), username@, password@, hash));
                }
                Ok(())
            },
            Err(e) => {
                assert(self.db@ == created);
                let _ = delete_user(&mut self.db, username);
                assert(is_registration(
                    old(self)@,
                    self@,
                    Err(AppError::DatabaseError(e)),
                    username@,
                    password@,
                    Seq::empty(),
                ));
                Err(AppError::DatabaseError(e))
            },
        }
    }
    /// Logs `username` in, with `token` as the token to issue and `now` as
    /// the present. A wrong password, an unknown user, a user without a
    /// password and a token that stands for a live session all give the
    /// same failure.
    pub fn login_with(&mut self, username: &str, password: &str, token: LoginToken, now: i64) -> (r:
        Result<LoginToken, AppError>)
        requires
            old(self).wf(),
        ensures
            final(self).wf(),
            token_view(r) == old(self)@.login_outcome(username@, password@, token@, now),
            final(self)@ == old(self)@.after_login(username@, password@, token@, now),
    {
        match check_password(&self.db, username, password) {
            Ok(true) => {
                if self.sessions.issue_with(username, &token, now) {
                    Ok(token)
                } else {
                    Err(AppError::LoginFailed)
                }
            },
            _ => Err(AppError::LoginFailed),
        }
    }

    /// Logs `username` in at the present time, under a fresh random token.
    /// With the right password the login fails only in the event that every
    /// token drawn for it stood for a live session.
    pub fn login(&mut self, username: &str, password: &str) -> (r: Result<LoginToken, AppError>)
        requires
            old(self).wf(),
        ensures
            final(self).wf(),
            exists|token: Seq<char>, now: i64|
                is_generated(token) && #[trigger] is_login(
                    old(self)@,
                    final(self)@,
                    token_view(r),
                    username@,
                    password@,
                    token,
                    now,
                ),
            !old(self)@.credentials_hold(username@, password@) ==> r == Err::<
                LoginToken,
                AppError,
            >(AppError::LoginFailed) && final(self)@ == old(self)@,
    {
        match check_password(&self.db, username, password) {
            Ok(true) => match self.sessions.issue(username) {
                Some(token) => {
                    proof {
                        let now = choose|now: i64| #[trigger]
                            is_issue(old(self)@.sessions, self@.sessions, token@, username@, now);
                        assert(is_login(
                            old(self)@,
                            self@,
                            Ok(token@),
                            username@,
                            password@,
                            token@,
                            now,
                        ));
                    }
                    Ok(token)
                },
                None => {
                    proof {
                        let (token, now) = choose|token: Seq<char>, now: i64| #[trigger]
                            is_collision(old(self)@.sessions, token, now);
                        assert(is_login(
                            old(self)@,
                            self@,
                            Err(AppError::LoginFailed),
                            username@,
                            password@,
                            token,
                            now,
                        ));
                    }
                    Err(AppError::LoginFailed)
                },
            },
            _ => {
                proof {
                    let token = base64_no_pad(Seq::new(TOKEN_ENTROPY_BYTES as nat, |i: int| 0u8));
                    assert(is_generated(token));
                    assert(is_login(
                        old(self)@,
                        self@,
                        Err(AppError::LoginFailed),
                        username@,
                        password@,
                        token,
                        0,
                    ));
                }
                Err(AppError::LoginFailed)
            },
        }
    }

    /// Logs out: ends the session under `login_token`, if there is one.
    pub fn logout(&mut self, login_token: &LoginToken)
        requires
            old(self).wf(),
        ensures
            final(self).wf(),
            final(self)@ == old(self)@.with_sessions(old(self)@.sessions.remove(login_token@)),
    {
        self.sessions.revoke(login_token);
    }

    /// The name of the user that `login_token` stands for at `now`. A
    /// session that is found expired is removed.
    pub fn get_username_for_token_at(&mut self, login_token: &LoginToken, now: i64) -> (name:
        Option<String>)
        requires
            old(self).wf(),
        ensures
            final(self).wf(),
            name_view(name) == (match lookup(old(self)@.sessions, login_token@, now) {
                Ok(username) => Some(username),
                Err(_) => None::<Seq<char>>,
            }),
            final(self)@ == old(self)@.with_sessions(
                after_lookup(old(self)@.sessions, login_token@, now),
            ),
    {
        match self.sessions.validate(login_token, now) {
            Ok(name) => Some(name),
            Err(_) => None,
        }
    }

    /// The name of the user that `login_token` stands for at the present
    /// time.
    pub fn get_username_for_token(&mut self, login_token: &LoginToken) -> (name: Option<String>)
        requires
            old(self).wf(),
        ensures
            final(self).wf(),
            exists|now: i64| #[trigger]
                is_lookup(old(self)@, final(self)@, name_view(name), login_token@, now),
    {
        let now = current_time_millis();
        let name = self.get_username_for_token_at(login_token, now);
        assert(is_lookup(old(self)@, self@, name_view(name), login_token@, now));
        name
    }

    /// The user that `login_token` stands for at `now`.
    pub fn get_user_for_token_at(&mut self, login_token: &LoginToken, now: i64) -> (r: Result<
        User,
        AppError,
    >)
        requires
            old(self).wf(),
        ensures
            final(self).wf(),
            user_view(r) == old(self)@.user_for_token(login_token@, now),
            final(self)@ == old(self)@.with_sessions(
                after_lookup(old(self)@.sessions, login_token@, now),
            ),
    {
        let username = match self.sessions.validate(login_token, now) {
            Ok(name) => name,
            Err(_) => {
                return Err(AppError::TokenInvalid);
            },
        };
        match get_user_by_name(&self.db, username.as_str()) {
            Ok(user) => Ok(user),
            Err(e) => Err(AppError::DatabaseError(e)),
        }
    }

    /// The user that `login_token` stands for at the present time.
    pub fn get_user_for_token(&mut self, login_token: &LoginToken) -> (r: Result<User, AppError>)
        requires
            old(self).wf(),
        ensures
            final(self).wf(),
            exists|now: i64| #[trigger]
                is_user_lookup(old(self)@, final(self)@, user_view(r), login_token@, now),
    {
        let now = current_time_millis();
        let r = self.get_user_for_token_at(login_token, now);
        assert(is_user_lookup(old(self)@, self@, user_view(r), login_token@, now));
        r
    }

    /// Sends `message` as the user that `login_token` stands for at `now`:
    /// stores it with the date `now`, publishes it to the feed, and returns
    /// the stored record.
    pub fn send_message_at(&mut self, login_token: &LoginToken, message: &str, now: i64) -> (r:
        Result<Message, AppError>)
        requires
            old(self).wf(),
        ensures
            final(self).wf(),
            message_view(r) == old(self)@.send_message_outcome(login_token@, message@, now),
            final(self)@ == old(self)@.after_send_message(login_token@, message@, now),
    {
        let user = match self.get_user_for_token_at(login_token, now) {
            Ok(user) => user,
            Err(e) => {
                return Err(e);
            },
        };
        match create_message_at(&mut self.db, message, user.id, now) {
            Err(e) => Err(AppError::DatabaseError(e)),
            Ok(stored) => {
                self.broadcast.publish(&stored);
                Ok(stored)
            },
        }
    }

    /// Sends `message` as the user that `login_token` stands for, at the
    /// present time.
    pub fn send_message(&mut self, login_token: &LoginToken, message: &str) -> (r: Result<
        Message,
        AppError,
    >)
        requires
            old(self).wf(),
        ensures
            final(self).wf(),
            exists|now: i64| #[trigger]
                is_sending(old(self)@, final(self)@, message_view(r), login_token@, message@, now),
    {
        let now = current_time_millis();
        let r = self.send_message_at(login_token, message, now);
        assert(is_sending(old(self)@, self@, message_view(r), login_token@, message@, now));
        r
    }

    /// The messages that `filter` lets through, oldest first and
    /// `MESSAGE_LIMIT` at most, for a reader whose `login_token` is valid
    /// at `now`. Without a valid token the store is not read.
    pub fn get_messages_at(&mut self, login_token: &LoginToken, filter: &MessageFilter, now: i64) -> (r:
        Result<Vec<Message>, AppError>)
        requires
            old(self).wf(),
        ensures
            final(self).wf(),
            messages_view(r) == old(self)@.get_messages_outcome(login_token@, *filter, now),
            final(self)@ == old(self)@.with_sessions(
                after_lookup(old(self)@.sessions, login_token@, now),
            ),
    {
        if self.sessions.validate(login_token, now).is_err() {
            return Err(AppError::TokenInvalid);
        }
        match get_messages(&self.db, filter) {
            Ok(messages) => Ok(messages),
            Err(e) => Err(AppError::DatabaseError(e)),
        }
    }

    /// The messages that `filter` lets through, for a reader whose
    /// `login_token` is valid at the present time.
    pub fn get_messages(&mut self, login_token: &LoginToken, filter: &MessageFilter) -> (r: Result<
        Vec<Message>,
        AppError,
    >)
        requires
            old(self).wf(),
        ensures
            final(self).wf(),
            exists|now: i64| #[trigger]
                is_reading(old(self)@, final(self)@, messages_view(r), login_token@, *filter, now),
    {
        let now = current_time_millis();
        let r = self.get_messages_at(login_token, filter, now);
        assert(is_reading(old(self)@, self@, messages_view(r), login_token@, *filter, now));
        r
    }

    /// The user with the id `id`.
    pub fn get_user_by_id(&mut self, id: i32) -> (r: Result<User, AppError>)
        requires
            old(self).wf(),
        ensures
            final(self).wf(),
            final(self)@ == old(self)@,
            user_view(r) == (match find_user_by_id(old(self)@.db.users, id) {
                Some(user) => Ok(user),
                None => storage_failure(DbError::UserNotFound),
            }),
    {
        match get_user_by_id(&self.db, id) {
            Ok(user) => Ok(user),
            Err(e) => Err(AppError::DatabaseError(e)),
        }
    }

    /// Subscribes to the feed, for a reader whose `login_token` is valid at
    /// `now`, and returns the id of the new listener: `None` where the hub
    /// has no id left. The listener gets what is sent from now on.
    pub fn subscribe_at(&mut self, login_token: &LoginToken, now: i64) -> (r: Result<
        Option<u64>,
        AppError,
    >)
        requires
            old(self).wf(),
        ensures
            final(self).wf(),
            r == old(self)@.subscribe_outcome(login_token@, now),
            final(self)@ == old(self)@.after_subscribe(login_token@, now),
    {
        if self.sessions.validate(login_token, now).is_err() {
            return Err(AppError::TokenInvalid);
        }
        Ok(self.broadcast.subscribe())
    }

    /// Subscribes to the feed, for a reader whose `login_token` is valid at
    /// the present time.
    pub fn subscribe(&mut self, login_token: &LoginToken) -> (r: Result<Option<u64>, AppError>)
        requires
            old(self).wf(),
        ensures
            final(self).wf(),
            exists|now: i64| #[trigger]
                is_subscription(old(self)@, final(self)@, r, login_token@, now),
    {
        let now = current_time_millis();
        let r = self.subscribe_at(login_token, now);
        assert(is_subscription(old(self)@, self@, r, login_token@, now));
        r
    }

    /// Gives the listener `listener` what is next for it.
    pub fn poll(&mut self, listener: u64) -> (next: Delivery)
        requires
            old(self).wf(),
        ensures
            final(self).wf(),
            next@ == old(self)@.hub.poll_outcome(listener),
            final(self)@ == (ChatAppView {
                hub: old(self)@.hub.after_poll(listener),
                ..old(self)@
            }),
    {
        self.broadcast.poll(listener)
    }

    /// Ends the subscription of the listener `listener`, if it has one.
    pub fn unsubscribe(&mut self, listener: u64)
        requires
            old(self).wf(),
        ensures
            final(self).wf(),
            final(self)@ == (ChatAppView {
                hub: old(self)@.hub.after_unsubscribe(listener),
                ..old(self)@
            }),
    {
        self.broadcast.unsubscribe(listener);
    }
    /// The names of the users with the ids `ids`: for each id asked for,
    /// the name of its user, or `None` where no user has the id.
    pub fn get_usernames(&self, ids: &Vec<i32>) -> (names: HashMap<i32, Option<String>>)
        requires
            self.wf(),
        ensures
            names@.map_values(|name: Option<String>| name_view(name)) == usernames_of(
                self@.db.users,
                ids@,
            ),
    {
        broadcast use vstd::std_specs::hash::group_hash_axioms;

        let mut names: HashMap<i32, Option<String>> = HashMap::new();
        let ghost view = |name: Option<String>| name_view(name);
        let mut i: usize = 0;
        assert(names@.map_values(view) =~= usernames_of(self@.db.users, ids@.subrange(0, 0)));
        while i < ids.len()
            invariant
                i <= ids@.len(),
                self.wf(),
                view == |name: Option<String>| name_view(name),
                names@.map_values(view) == usernames_of(self@.db.users, ids@.subrange(0, i as int)),
            decreases ids@.len() - i,
        {
            let id = ids[i];
            let name = match get_user_by_id(&self.db, id) {
                Ok(user) => Some(user.username),
                Err(_) => None,
            };
            let ghost before = names@;
            names.insert(id, name);
            proof {
                let sofar = ids@.subrange(0, i as int);
                let next = ids@.subrange(0, i + 1);
                assert(next =~= sofar.push(id));
                assert forall|k: i32| next.contains(k) <==> (sofar.contains(k) || k == id) by {
                    if sofar.contains(k) {
                        let at = choose|at: int| 0 <= at < sofar.len() && sofar[at] == k;
                        assert(next[at] == k);
                    }
                    if k == id {
                        assert(next[i as int] == k);
                    }
                }
                assert(names@ == before.insert(id, name));
                let wanted = usernames_of(self@.db.users, next);
                let got = names@.map_values(view);
                assert(before.map_values(view).dom() =~= before.dom());
                assert forall|k: i32| got.dom().contains(k) <==> wanted.dom().contains(k) by {
                    assert(before.map_values(view).dom().contains(k) <==> sofar.contains(k));
                }
                assert forall|k: i32| got.dom().contains(k) implies got[k] == wanted[k] by {
                    if k != id {
                        assert(before.map_values(view)[k] == usernames_of(
                            self@.db.users,
                            sofar,
                        )[k]);
                    }
                }
                assert(got =~= wanted);
            }
            i += 1;
        }
        assert(ids@.subrange(0, i as int) =~= ids@);
        names
    }
}

} // verus!
