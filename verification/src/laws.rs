//! What holds of the service as a whole, over every state and input.

use crate::auth::{hash_matches, hash_verifiable};
use crate::store_model::{admits, has_credential, has_username};
use crate::store_model::{index_of_credential, lemma_create_user_keeps_wf};
use crate::store_model::{lemma_credential_found, lemma_selection, lemma_set_password_keeps_wf};
use crate::store_model::{lemma_create_message_keeps_wf, lemma_insertion_point_exists};
use crate::store_model::{insertion_point, lemma_username_found, ordered_by_date, select_messages};
use crate::store_model::{MessageFilter, MESSAGE_LIMIT};
use crate::errors::{AppError, DbError, SessionError};
use crate::models::MessageView;
use crate::service::{is_login, ChatAppView};
use crate::session::{expiry_of, is_issue, is_live, lemma_issued_tokens_distinct, lookup};
use vstd::prelude::*;

verus! {

/// After a registration that succeeded, the user is in the store under its
/// name, and the password it registered with is its password.
pub proof fn lemma_registered_credentials_hold(
    app: ChatAppView,
    username: Seq<char>,
    password: Seq<char>,
    hash: Seq<char>,
)
    requires
        app.wf(),
        app.register_outcome(username) is Ok,
        hash_verifiable(hash),
        hash_matches(password, hash),
    ensures
        app.after_register(username, hash).wf(),
        has_username(app.after_register(username, hash).db.users, username),
        app.after_register(username, hash).credentials_hold(username, password),
{
    let created = app.db.after_create_user(username);
    lemma_create_user_keeps_wf(app.db, username);
    let at = app.db.users.len() as int;
    assert(created.users[at].username == username);
    lemma_username_found(created.users, created.next_user_id, at);
    let user = created.users[at];
    let stored = created.after_set_password(username, hash);
    lemma_set_password_keeps_wf(created, username, hash);
    let place = if has_credential(created.authentications, user.id) {
        index_of_credential(created.authentications, user.id)
    } else {
        created.authentications.len() as int
    };
    assert(stored.authentications[place].userid == user.id);
    assert(stored.authentications[place].hashedpassword == hash);
    lemma_credential_found(stored.authentications, stored.next_authentication_id, place);
    assert(stored.users == created.users);
}

/// Registering and then logging in with the same name and password
/// succeeds, and the token that the login returns resolves to that name
/// for as long as the session lasts. The token offered must not stand for
/// a live session already.
pub proof fn lemma_register_then_login(
    app: ChatAppView,
    username: Seq<char>,
    password: Seq<char>,
    hash: Seq<char>,
    token: Seq<char>,
    now: i64,
    at: i64,
)
    requires
        app.wf(),
        app.register_outcome(username) is Ok,
        hash_verifiable(hash),
        hash_matches(password, hash),
        !is_live(app.sessions, token, now),
        at <= expiry_of(now),
    ensures
        app.after_register(username, hash).login_outcome(username, password, token, now) == Ok::<
            Seq<char>,
            AppError,
        >(token),
        lookup(
            app.after_register(username, hash).after_login(
                username,
                password,
                token,
                now,
            ).sessions,
            token,
            at,
        ) == Ok::<Seq<char>, SessionError>(username),
{
    lemma_registered_credentials_hold(app, username, password, hash);
}

/// Logins that succeed one after another, each while the sessions of those
/// before it are still live and with nothing else done in between, return
/// tokens that differ from one another, and the service holds a session
/// under each of them in the end. `states[i]` is the service before the
/// `i`-th login, and `states[i + 1]` the service after it.
pub proof fn lemma_logins_return_distinct_tokens(
    states: Seq<ChatAppView>,
    tokens: Seq<Seq<char>>,
    usernames: Seq<Seq<char>>,
    passwords: Seq<Seq<char>>,
    times: Seq<i64>,
)
    requires
        states.len() == tokens.len() + 1,
        usernames.len() == tokens.len(),
        passwords.len() == tokens.len(),
        times.len() == tokens.len(),
        forall|i: int|
            0 <= i < tokens.len() ==> #[trigger] is_login(
                states[i],
                states[i + 1],
                Ok(tokens[i]),
                usernames[i],
                passwords[i],
                tokens[i],
                times[i],
            ),
        forall|i: int, j: int|
            0 <= i < j < tokens.len() ==> #[trigger] times[j] <= expiry_of(#[trigger] times[i]),
    ensures
        forall|i: int, j: int| 0 <= i < j < tokens.len() ==> tokens[i] != tokens[j],
        forall|i: int|
            0 <= i < tokens.len() ==> lookup(
                states.last().sessions,
                #[trigger] tokens[i],
                times.last(),
            ) == Ok::<Seq<char>, SessionError>(usernames[i]),
{
    let tables = Seq::new(states.len(), |i: int| states[i].sessions);
    assert forall|i: int| 0 <= i < tokens.len() implies #[trigger] is_issue(
        tables[i],
        tables[i + 1],
        tokens[i],
        usernames[i],
        times[i],
    ) by {
        assert(is_login(
            states[i],
            states[i + 1],
            Ok(tokens[i]),
            usernames[i],
            passwords[i],
            tokens[i],
            times[i],
        ));
    }
    lemma_issued_tokens_distinct(tables, tokens, usernames, times);
    assert(tables.last() == states.last().sessions);
    assert forall|i: int| 0 <= i < tokens.len() implies lookup(
        states.last().sessions,
        #[trigger] tokens[i],
        times.last(),
    ) == Ok::<Seq<char>, SessionError>(usernames[i]) by {
        let last = tokens.len() - 1;
        if i < last {
            assert(times[last] <= expiry_of(times[i]));
        }
    }
}

/// A login with a name that is not registered, and a login with a password
/// that does not match the stored hash, fail with the same answer, and
/// neither leaves a trace.
pub proof fn lemma_login_failures_look_alike(
    app: ChatAppView,
    unknown: Seq<char>,
    known: Seq<char>,
    password: Seq<char>,
    wrong: Seq<char>,
    token: Seq<char>,
    now: i64,
)
    requires
        app.wf(),
        !has_username(app.db.users, unknown),
        app.db.check_password_outcome(known, wrong) == Ok::<bool, DbError>(false),
    ensures
        app.login_outcome(unknown, password, token, now) == Err::<Seq<char>, AppError>(
            AppError::LoginFailed,
        ),
        app.login_outcome(known, wrong, token, now) == app.login_outcome(
            unknown,
            password,
            token,
            now,
        ),
        app.after_login(unknown, password, token, now) == app,
        app.after_login(known, wrong, token, now) == app,
{
}

/// A reader with a valid token gets at most `MESSAGE_LIMIT` messages, in
/// the order of their dates, every one of them in the store: through
/// `Before(t)` only messages dated before `t`, through `After(t)` only
/// messages dated after `t`.
pub proof fn lemma_reading_is_filtered_ordered_and_capped(
    app: ChatAppView,
    token: Seq<char>,
    filter: MessageFilter,
    now: i64,
)
    requires
        app.wf(),
        lookup(app.sessions, token, now) is Ok,
    ensures
        app.get_messages_outcome(token, filter, now) matches Ok(messages) && {
            &&& messages.len() <= MESSAGE_LIMIT
            &&& ordered_by_date(messages)
            &&& forall|i: int|
                0 <= i < messages.len() ==> app.db.messages.contains(#[trigger] messages[i])
                    && (match filter {
                    MessageFilter::Before(t) => messages[i].date < t,
                    MessageFilter::After(t) => messages[i].date > t,
                })
        },
{
    lemma_selection(app.db.messages, filter, MESSAGE_LIMIT as int);
    let messages = select_messages(app.db.messages, filter, MESSAGE_LIMIT as int);
    assert forall|i: int| 0 <= i < messages.len() implies app.db.messages.contains(
        #[trigger] messages[i],
    ) && (match filter {
        MessageFilter::Before(t) => messages[i].date < t,
        MessageFilter::After(t) => messages[i].date > t,
    }) by {
        assert(admits(filter, messages[i].date));
    }
}

/// A message that was sent is in the store afterwards, with the sender's
/// id and the date of the sending.
pub proof fn lemma_sent_message_is_stored(
    app: ChatAppView,
    token: Seq<char>,
    text: Seq<char>,
    now: i64,
)
    requires
        app.wf(),
        app.send_message_outcome(token, text, now) is Ok,
    ensures
        app.after_send_message(token, text, now).wf(),
        app.send_message_outcome(token, text, now) matches Ok(message) && {
            &&& message.date == now
            &&& message.messagetext == text
            &&& app.user_for_token(token, now) matches Ok(user) && message.userid == user.id
            &&& app.after_send_message(token, text, now).db.messages.contains(message)
        },
{
    let message = app.send_message_outcome(token, text, now)->Ok_0;
    lemma_create_message_keeps_wf(app.db, text, message.userid, now);
    lemma_insertion_point_exists(app.db.messages, now);
    crate::broadcast::lemma_publish_keeps_wf(app.hub, message);
    let place = insertion_point(app.db.messages, now);
    let after = app.after_send_message(token, text, now).db.messages;
    assert(after[place] == message);
}

/// Once a token is logged out, nothing can be done under it, at any time:
/// reading and sending both fail as with a token that never was, and
/// neither touches the store or the feed.
pub proof fn lemma_logged_out_token_is_invalid(
    app: ChatAppView,
    token: Seq<char>,
    filter: MessageFilter,
    text: Seq<char>,
    now: i64,
)
    ensures
        app.with_sessions(app.sessions.remove(token)).get_messages_outcome(token, filter, now)
            == Err::<Seq<MessageView>, AppError>(AppError::TokenInvalid),
        app.with_sessions(app.sessions.remove(token)).send_message_outcome(token, text, now)
            == Err::<MessageView, AppError>(AppError::TokenInvalid),
        app.with_sessions(app.sessions.remove(token)).after_send_message(token, text, now).db
            == app.db,
        app.with_sessions(app.sessions.remove(token)).after_send_message(token, text, now).hub
            == app.hub,
{
}

} // verus!
