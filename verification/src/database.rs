//! The store: three tables, of users, of their credentials and of messages,
//! held in memory.
//!
//! User names are unique. Ids are handed out in rising order and never used
//! twice. A user has at most one credential. Messages are kept in the order
//! of their dates, and among messages of one date in the order in which they
//! came.

use crate::auth::{generate_hash, hash_matches, hash_verifiable, verify_password};
use crate::auth::{hash_is_verifiable, MAX_PASSWORD_BYTES};
use crate::clock::current_time_millis;
use crate::errors::DbError;
use crate::models::{authentication_views, message_views, user_views};
use crate::models::{Authentication, Message, MessageView, User};
use crate::models::{NewAuthentication, NewMessage, NewUser};
use crate::store_model::{admits, admitted_by, select_messages};
use crate::store_model::{find_credential, find_user_by_id, find_user_by_name};
use crate::store_model::{has_credential, has_user_id, has_username, index_of_credential};
pub use crate::store_model::{DatabaseView, MessageFilter, MESSAGE_LIMIT};
use crate::store_model::{index_of_username, lemma_change_username_keeps_wf};
use crate::store_model::{lemma_create_message_keeps_wf, lemma_create_user_keeps_wf};
use crate::store_model::{lemma_credential_found, lemma_delete_user_keeps_wf};
use crate::store_model::{lemma_insertion_point_unique, lemma_set_password_keeps_wf};
use crate::store_model::{has_authentication_id, has_message_id, lemma_username_found};
use crate::store_model::{lemma_restore_authentication_keeps_wf, lemma_restore_message_keeps_wf};
use crate::store_model::{insertion_point, is_insertion_point, lemma_restore_user_keeps_wf};
use crate::store_model::lemma_insertion_point_exists;
use vstd::prelude::*;
use vstd::string::{StringExecFns, StringSliceAdditionalSpecFns};

verus! {

/// The store.
pub struct Database {
    users: Vec<User>,
    authentications: Vec<Authentication>,
    messages: Vec<Message>,
    next_user_id: i32,
    next_authentication_id: i32,
    next_message_id: i32,
}

impl View for Database {
    type V = DatabaseView;

    closed spec fn view(&self) -> DatabaseView {
        DatabaseView {
            users: user_views(self.users@),
            authentications: authentication_views(self.authentications@),
            messages: message_views(self.messages@),
            next_user_id: self.next_user_id,
            next_authentication_id: self.next_authentication_id,
            next_message_id: self.next_message_id,
        }
    }
}

impl Database {
    /// An empty store, whose first ids will be 1.
    pub fn new() -> (db: Database)
        ensures
            db@.wf(),
            db@ == DatabaseView::empty(),
    {
        let db = Database {
            users: Vec::new(),
            authentications: Vec::new(),
            messages: Vec::new(),
            next_user_id: 1,
            next_authentication_id: 1,
            next_message_id: 1,
        };
        assert(db@.users =~= Seq::empty());
        assert(db@.authentications =~= Seq::empty());
        assert(db@.messages =~= Seq::empty());
        db
    }

    /// Where the user named `name` stands in the table.
    fn position_of_username(&self, name: &str) -> (at: Option<usize>)
        requires
            self@.wf(),
        ensures
            match at {
                Some(i) => has_username(self@.users, name@) && i == index_of_username(
                    self@.users,
                    name@,
                ) && i < self.users@.len(),
                None => !has_username(self@.users, name@),
            },
    {
        let wanted = String::from_str(name);
        let mut i: usize = 0;
        while i < self.users.len()
            invariant
                i <= self.users@.len(),
                wanted@ == name@,
                self@.wf(),
                forall|k: int| 0 <= k < i ==> (#[trigger] self@.users[k]).username != name@,
            decreases self.users@.len() - i,
        {
            if self.users[i].username == wanted {
                proof {
                    lemma_username_found(self@.users, self@.next_user_id, i as int);
                }
                return Some(i);
            }
            i += 1;
        }
        None
    }

    /// Where the user with the id `id` stands in the table.
    fn position_of_user_id(&self, id: i32) -> (at: Option<usize>)
        requires
            self@.wf(),
        ensures
            match at {
                Some(i) => i < self.users@.len() && find_user_by_id(self@.users, id) == Some(
                    self@.users[i as int],
                ),
                None => !has_user_id(self@.users, id),
            },
    {
        let mut i: usize = 0;
        while i < self.users.len()
            invariant
                i <= self.users@.len(),
                self@.wf(),
                forall|k: int| 0 <= k < i ==> (#[trigger] self@.users[k]).id != id,
            decreases self.users@.len() - i,
        {
            if self.users[i].id == id {
                proof {
                    lemma_username_found(self@.users, self@.next_user_id, i as int);
                }
                return Some(i);
            }
            i += 1;
        }
        None
    }

    /// Where the credential of the user `userid` stands in the table.
    fn position_of_credential(&self, userid: i32) -> (at: Option<usize>)
        requires
            self@.wf(),
        ensures
            match at {
                Some(i) => has_credential(self@.authentications, userid) && i
                    == index_of_credential(self@.authentications, userid) && i
                    < self.authentications@.len(),
                None => !has_credential(self@.authentications, userid),
            },
    {
        let mut i: usize = 0;
        while i < self.authentications.len()
            invariant
                i <= self.authentications@.len(),
                self@.wf(),
                forall|k: int| 0 <= k < i ==> (#[trigger] self@.authentications[k]).userid != userid,
            decreases self.authentications@.len() - i,
        {
            if self.authentications[i].userid == userid {
                proof {
                    lemma_credential_found(
                        self@.authentications,
                        self@.next_authentication_id,
                        i as int,
                    );
                }
                return Some(i);
            }
            i += 1;
        }
        None
    }

    /// Whether a credential has the id `id`.
    fn holds_authentication_id(&self, id: i32) -> (held: bool)
        ensures
            held == has_authentication_id(self@.authentications, id),
    {
        let mut i: usize = 0;
        while i < self.authentications.len()
            invariant
                i <= self.authentications@.len(),
                forall|k: int| 0 <= k < i ==> (#[trigger] self@.authentications[k]).id != id,
            decreases self.authentications@.len() - i,
        {
            if self.authentications[i].id == id {
                assert(self@.authentications[i as int].id == id);
                return true;
            }
            i += 1;
        }
        false
    }

    /// Whether a message has the id `id`.
    fn holds_message_id(&self, id: i32) -> (held: bool)
        ensures
            held == has_message_id(self@.messages, id),
    {
        let mut i: usize = 0;
        while i < self.messages.len()
            invariant
                i <= self.messages@.len(),
                forall|k: int| 0 <= k < i ==> (#[trigger] self@.messages[k]).id != id,
            decreases self.messages@.len() - i,
        {
            if self.messages[i].id == id {
                assert(self@.messages[i as int].id == id);
                return true;
            }
            i += 1;
        }
        false
    }

    /// Where a message of the date `date` belongs in the table.
    fn place_for(&self, date: i64) -> (at: usize)
        requires
            self@.wf(),
        ensures
            at <= self.messages@.len(),
            at == insertion_point(self@.messages, date),
    {
        let mut at: usize = self.messages.len();
        while at > 0 && self.messages[at - 1].date > date
            invariant
                at <= self.messages@.len(),
                forall|i: int|
                    at <= i < self.messages@.len() ==> (#[trigger] self@.messages[i]).date > date,
            decreases at,
        {
            at -= 1;
        }
        proof {
            assert forall|i: int| 0 <= i < at implies (#[trigger] self@.messages[i]).date
                <= date by {
                if i < at - 1 {
                    assert(self@.messages[i].date <= self@.messages[at - 1].date);
                }
            }
            lemma_insertion_point_unique(self@.messages, date, at as int);
        }
        at
    }
}

/// Creates a user named `name`, with the next free id. A name that is taken
/// is refused.
pub fn create_user(conn: &mut Database, name: &str) -> (r: Result<(), DbError>)
    requires
        old(conn)@.wf(),
    ensures
        final(conn)@.wf(),
        r == old(conn)@.create_user_outcome(name@),
        final(conn)@ == old(conn)@.after_create_user(name@),
{
    if conn.position_of_username(name).is_some() {
        return Err(DbError::UsernameInUse);
    }
    if conn.next_user_id == i32::MAX {
        return Err(DbError::UserCreationFailed);
    }
    let user = User::from_new(conn.next_user_id, NewUser { username: name });
    conn.users.push(user);
    conn.next_user_id = conn.next_user_id + 1;
    proof {
        assert(conn@.users =~= old(conn)@.after_create_user(name@).users);
        lemma_create_user_keeps_wf(old(conn)@, name@);
    }
    Ok(())
}

/// The user named `name`.
pub fn get_user_by_name(conn: &Database, name: &str) -> (r: Result<User, DbError>)
    requires
        conn@.wf(),
    ensures
        match r {
            Ok(user) => find_user_by_name(conn@.users, name@) == Some(user@),
            Err(e) => e == DbError::UserNotFound && find_user_by_name(conn@.users, name@) is None,
        },
{
    match conn.position_of_username(name) {
        Some(i) => Ok(conn.users[i].clone()),
        None => Err(DbError::UserNotFound),
    }
}

/// The user with the id `id`.
pub fn get_user_by_id(conn: &Database, id: i32) -> (r: Result<User, DbError>)
    requires
        conn@.wf(),
    ensures
        match r {
            Ok(user) => find_user_by_id(conn@.users, id) == Some(user@),
            Err(e) => e == DbError::UserNotFound && find_user_by_id(conn@.users, id) is None,
        },
{
    match conn.position_of_user_id(id) {
        Some(i) => Ok(conn.users[i].clone()),
        None => Err(DbError::UserNotFound),
    }
}

/// Gives the user named `current_username` the name `new_username`. The
/// user keeps its id.
pub fn change_username(conn: &mut Database, current_username: &str, new_username: &str) -> (r:
    Result<(), DbError>)
    requires
        old(conn)@.wf(),
    ensures
        final(conn)@.wf(),
        r == old(conn)@.change_username_outcome(current_username@, new_username@),
        final(conn)@ == old(conn)@.after_change_username(current_username@, new_username@),
{
    if conn.position_of_username(new_username).is_some() {
        return Err(DbError::UsernameInUse);
    }
    match conn.position_of_username(current_username) {
        None => Err(DbError::UserNotFound),
        Some(i) => {
            let renamed = User { id: conn.users[i].id, username: String::from_str(new_username) };
            conn.users.set(i, renamed);
            proof {
                assert(conn@.users =~= old(conn)@.after_change_username(
                    current_username@,
                    new_username@,
                ).users);
                lemma_change_username_keeps_wf(old(conn)@, current_username@, new_username@);
            }
            Ok(())
        },
    }
}

/// Deletes the user named `name`.
pub fn delete_user(conn: &mut Database, name: &str) -> (r: Result<(), DbError>)
    requires
        old(conn)@.wf(),
    ensures
        final(conn)@.wf(),
        r == old(conn)@.delete_user_outcome(name@),
        final(conn)@ == old(conn)@.after_delete_user(name@),
{
    match conn.position_of_username(name) {
        None => Err(DbError::UserNotFound),
        Some(i) => {
            conn.users.remove(i);
            proof {
                assert(conn@.users =~= old(conn)@.after_delete_user(name@).users);
                lemma_delete_user_keeps_wf(old(conn)@, name@);
            }
            Ok(())
        },
    }
}

/// Stores `hash` as the credential of the user named `username`, in place
/// of an earlier one if there is one.
pub fn store_password_hash(conn: &mut Database, username: &str, hash: String) -> (r: Result<
    (),
    DbError,
>)
    requires
        old(conn)@.wf(),
        hash_verifiable(hash@),
    ensures
        final(conn)@.wf(),
        r == old(conn)@.set_password_outcome(username@),
        final(conn)@ == old(conn)@.after_set_password(username@, hash@),
{
    let userid = match conn.position_of_username(username) {
        None => {
            return Err(DbError::UserNotFound);
        },
        Some(i) => conn.users[i].id,
    };
    match conn.position_of_credential(userid) {
        Some(at) => {
            let replaced = Authentication::from_new(
                conn.authentications[at].id,
                NewAuthentication { userid, hashedpassword: hash },
            );
            conn.authentications.set(at, replaced);
        },
        None => {
            if conn.next_authentication_id == i32::MAX {
                return Err(DbError::GenericError);
            }
            let added = Authentication::from_new(
                conn.next_authentication_id,
                NewAuthentication { userid, hashedpassword: hash },
            );
            conn.authentications.push(added);
            conn.next_authentication_id = conn.next_authentication_id + 1;
        },
    }
    proof {
        assert(conn@.authentications =~= old(conn)@.after_set_password(
            username@,
            hash@,
        ).authentications);
        lemma_set_password_keeps_wf(old(conn)@, username@, hash@);
    }
    Ok(())
}

/// Sets the password of the user named `username`: hashes it with a fresh
/// salt and stores the hash. Whatever the salt, the stored hash is one that
/// the password matches.
pub fn set_password(conn: &mut Database, username: &str, password: &str) -> (r: Result<(), DbError>)
    requires
        old(conn)@.wf(),
        password.spec_bytes().len() <= MAX_PASSWORD_BYTES,
    ensures
        final(conn)@.wf(),
        r == old(conn)@.set_password_outcome(username@),
        exists|hash: Seq<char>|
            hash_verifiable(hash) && hash_matches(password@, hash) && final(conn)@
                == #[trigger] old(conn)@.after_set_password(username@, hash),
{
    let hash = generate_hash(password);
    let ghost stored = hash@;
    let r = store_password_hash(conn, username, hash);
    assert(conn@ == old(conn)@.after_set_password(username@, stored));
    r
}

/// Whether `password` is the password of the user named `username`.
pub fn check_password(conn: &Database, username: &str, password: &str) -> (r: Result<bool, DbError>)
    requires
        conn@.wf(),
    ensures
        r == conn@.check_password_outcome(username@, password@),
{
    let userid = match conn.position_of_username(username) {
        None => {
            return Err(DbError::UserNotFound);
        },
        Some(i) => conn.users[i].id,
    };
    match conn.position_of_credential(userid) {
        None => Err(DbError::NoPasswordSet),
        Some(at) => {
            assert(hash_verifiable(conn@.authentications[at as int].hashedpassword));
            Ok(verify_password(password, conn.authentications[at].hashedpassword.as_str()))
        },
    }
}

/// An answer that holds a stored message, as contracts see it.
pub open spec fn stored_view(r: Result<Message, DbError>) -> Result<MessageView, DbError> {
    match r {
        Ok(stored) => Ok(stored@),
        Err(e) => Err(e),
    }
}

/// Stores a message of the user `userid` with the date `now`, and returns
/// the stored record.
pub fn create_message_at(conn: &mut Database, message: &str, userid: i32, now: i64) -> (r: Result<
    Message,
    DbError,
>)
    requires
        old(conn)@.wf(),
    ensures
        final(conn)@.wf(),
        stored_view(r) == old(conn)@.create_message_outcome(message@, userid, now),
        final(conn)@ == old(conn)@.after_create_message(message@, userid, now),
        is_insertion_point(
            old(conn)@.messages,
            now,
            insertion_point(old(conn)@.messages, now),
        ),
{
    proof {
        lemma_insertion_point_exists(conn@.messages, now);
    }
    if conn.next_message_id == i32::MAX {
        return Err(DbError::GenericError);
    }
    let at = conn.place_for(now);
    let stored = Message::from_new(
        conn.next_message_id,
        NewMessage { date: now, messagetext: String::from_str(message), userid },
    );
    let copy = stored.clone();
    conn.messages.insert(at, stored);
    conn.next_message_id = conn.next_message_id + 1;
    proof {
        assert(conn@.messages =~= old(conn)@.after_create_message(message@, userid, now).messages);
        lemma_create_message_keeps_wf(old(conn)@, message@, userid, now);
    }
    Ok(copy)
}

/// Whether `after` is what `before` becomes when a message is stored at
/// `now`, with `outcome` as the answer.
pub open spec fn is_message_creation(
    before: DatabaseView,
    after: DatabaseView,
    outcome: Result<MessageView, DbError>,
    text: Seq<char>,
    userid: i32,
    now: i64,
) -> bool {
    outcome == before.create_message_outcome(text, userid, now) && after
        == before.after_create_message(text, userid, now)
}

/// Stores a message of the user `userid`, dated by the clock, and returns
/// the stored record.
pub fn create_message(conn: &mut Database, message: &str, userid: i32) -> (r: Result<
    Message,
    DbError,
>)
    requires
        old(conn)@.wf(),
    ensures
        final(conn)@.wf(),
        exists|now: i64| #[trigger]
            is_message_creation(old(conn)@, final(conn)@, stored_view(r), message@, userid, now),
{
    let now = current_time_millis();
    let r = create_message_at(conn, message, userid, now);
    assert(is_message_creation(old(conn)@, conn@, stored_view(r), message@, userid, now));
    r
}

/// Whether `filter` lets a message of the date `date` through.
pub fn filter_admits(filter: &MessageFilter, date: i64) -> (through: bool)
    ensures
        through == admits(*filter, date),
{
    match filter {
        MessageFilter::Before(t) => date < *t,
        MessageFilter::After(t) => date > *t,
    }
}

/// The messages that `filter` lets through, oldest first, `MESSAGE_LIMIT`
/// at most: where more are let through, the oldest ones.
pub fn get_messages(conn: &Database, filter: &MessageFilter) -> (r: Result<Vec<Message>, DbError>)
    ensures
        r matches Ok(messages) && message_views(messages@) == select_messages(
            conn@.messages,
            *filter,
            MESSAGE_LIMIT as int,
        ),
{
    let ghost pred = admitted_by(*filter);
    let ghost log = conn@.messages;
    let mut out: Vec<Message> = Vec::new();
    let mut i: usize = 0;
    proof {
        reveal(Seq::filter);
        assert(log.subrange(0, 0) =~= Seq::<MessageView>::empty());
    }
    while i < conn.messages.len() && out.len() < MESSAGE_LIMIT
        invariant
            i <= conn.messages@.len(),
            log == conn@.messages,
            log.len() == conn.messages@.len(),
            pred == admitted_by(*filter),
            out@.len() <= MESSAGE_LIMIT,
            message_views(out@) == log.subrange(0, i as int).filter(pred),
        decreases conn.messages@.len() - i,
    {
        let ghost before = log.subrange(0, i as int);
        let ghost kept = message_views(out@);
        if filter_admits(filter, conn.messages[i].date) {
            out.push(conn.messages[i].clone());
        }
        proof {
            reveal(Seq::filter);
            let next = log.subrange(0, i + 1);
            assert(next.drop_last() =~= before);
            assert(next.last() == log[i as int]);
            assert(log[i as int] == conn.messages@[i as int]@);
            if pred(log[i as int]) {
                assert(message_views(out@) =~= kept.push(log[i as int]));
            }
        }
        i += 1;
    }
    proof {
        let seen = log.subrange(0, i as int);
        let rest = log.subrange(i as int, log.len() as int);
        assert(log =~= seen + rest);
        Seq::filter_distributes_over_add(seen, rest, pred);
        if i == log.len() {
            assert(seen =~= log);
        } else {
            assert(seen.filter(pred).len() == MESSAGE_LIMIT);
            assert(log.filter(pred).take(MESSAGE_LIMIT as int) =~= seen.filter(pred));
        }
    }
    Ok(out)
}

/// The credential of the user with the id `userid`.
pub fn get_authentication(conn: &Database, userid: i32) -> (r: Result<Authentication, DbError>)
    requires
        conn@.wf(),
    ensures
        match r {
            Ok(credential) => find_credential(conn@.authentications, userid) == Some(credential@),
            Err(e) => e == DbError::NoPasswordSet && find_credential(conn@.authentications, userid)
                is None,
        },
{
    match conn.position_of_credential(userid) {
        Some(at) => Ok(conn.authentications[at].clone()),
        None => Err(DbError::NoPasswordSet),
    }
}

/// Puts back a user that was stored before, under the id it had.
pub fn restore_user(conn: &mut Database, user: User) -> (r: Result<(), DbError>)
    requires
        old(conn)@.wf(),
    ensures
        final(conn)@.wf(),
        r == old(conn)@.restore_user_outcome(user@),
        final(conn)@ == old(conn)@.after_restore_user(user@),
{
    if user.id < 1 || user.id == i32::MAX || conn.position_of_user_id(user.id).is_some() {
        return Err(DbError::GenericError);
    }
    if conn.position_of_username(user.username.as_str()).is_some() {
        return Err(DbError::UsernameCollisionDetected);
    }
    if user.id >= conn.next_user_id {
        conn.next_user_id = user.id + 1;
    }
    conn.users.push(user);
    proof {
        assert(conn@.users =~= old(conn)@.after_restore_user(user@).users);
        lemma_restore_user_keeps_wf(old(conn)@, user@);
    }
    Ok(())
}

/// Puts back a credential that was stored before, under the id it had.
pub fn restore_authentication(conn: &mut Database, credential: Authentication) -> (r: Result<
    (),
    DbError,
>)
    requires
        old(conn)@.wf(),
    ensures
        final(conn)@.wf(),
        r == old(conn)@.restore_authentication_outcome(credential@),
        final(conn)@ == old(conn)@.after_restore_authentication(credential@),
{
    if credential.id < 1 || credential.id == i32::MAX {
        return Err(DbError::GenericError);
    }
    if conn.holds_authentication_id(credential.id) {
        return Err(DbError::GenericError);
    }
    if conn.position_of_credential(credential.userid).is_some() {
        return Err(DbError::GenericError);
    }
    if !hash_is_verifiable(credential.hashedpassword.as_str()) {
        return Err(DbError::MalformedPasswordHash);
    }
    if credential.id >= conn.next_authentication_id {
        conn.next_authentication_id = credential.id + 1;
    }
    conn.authentications.push(credential);
    proof {
        assert(conn@.authentications =~= old(conn)@.after_restore_authentication(
            credential@,
        ).authentications);
        lemma_restore_authentication_keeps_wf(old(conn)@, credential@);
    }
    Ok(())
}

/// Puts back a message that was stored before, under the id it had, where
/// its date puts it.
pub fn restore_message(conn: &mut Database, message: Message) -> (r: Result<(), DbError>)
    requires
        old(conn)@.wf(),
    ensures
        final(conn)@.wf(),
        r == old(conn)@.restore_message_outcome(message@),
        final(conn)@ == old(conn)@.after_restore_message(message@),
        is_insertion_point(
            old(conn)@.messages,
            message.date,
            insertion_point(old(conn)@.messages, message.date),
        ),
{
    proof {
        lemma_insertion_point_exists(conn@.messages, message.date);
    }
    if message.id < 1 || message.id == i32::MAX {
        return Err(DbError::GenericError);
    }
    if conn.holds_message_id(message.id) {
        return Err(DbError::GenericError);
    }
    let at = conn.place_for(message.date);
    if message.id >= conn.next_message_id {
        conn.next_message_id = message.id + 1;
    }
    conn.messages.insert(at, message);
    proof {
        assert(conn@.messages =~= old(conn)@.after_restore_message(message@).messages);
        lemma_restore_message_keeps_wf(old(conn)@, message@);
    }
    Ok(())
}

/// All users, in the order in which the table holds them.
pub fn get_all_users(conn: &Database) -> (r: Result<Vec<User>, DbError>)
    ensures
        r matches Ok(users) && user_views(users@) == conn@.users,
{
    let mut users: Vec<User> = Vec::new();
    let mut i: usize = 0;
    while i < conn.users.len()
        invariant
            i <= conn.users@.len(),
            users@.len() == i,
            forall|k: int| 0 <= k < i ==> (#[trigger] users@[k])@ == conn.users@[k]@,
        decreases conn.users@.len() - i,
    {
        users.push(conn.users[i].clone());
        i += 1;
    }
    assert(user_views(users@) =~= conn@.users);
    Ok(users)
}

} // verus!
