//! The store as contracts see it: the contents of its three tables, the
//! invariant that they keep, and what each operation makes of them.

use crate::auth::{hash_matches, hash_verifiable};
use crate::errors::DbError;
use crate::models::{AuthenticationView, MessageView, UserView};
use vstd::prelude::*;

verus! {

/// The three tables' contents, and the ids to hand out next.
pub struct DatabaseView {
    pub users: Seq<UserView>,
    pub authentications: Seq<AuthenticationView>,
    pub messages: Seq<MessageView>,
    pub next_user_id: i32,
    pub next_authentication_id: i32,
    pub next_message_id: i32,
}

/// Whether some user in `users` has the name `name`.
pub open spec fn has_username(users: Seq<UserView>, name: Seq<char>) -> bool {
    exists|i: int| 0 <= i < users.len() && (#[trigger] users[i]).username == name
}

/// Where in `users` the user named `name` stands, if there is one.
pub open spec fn index_of_username(users: Seq<UserView>, name: Seq<char>) -> int {
    choose|i: int| 0 <= i < users.len() && (#[trigger] users[i]).username == name
}

/// The user named `name`, if there is one.
pub open spec fn find_user_by_name(users: Seq<UserView>, name: Seq<char>) -> Option<UserView> {
    if has_username(users, name) {
        Some(users[index_of_username(users, name)])
    } else {
        None
    }
}

/// Whether some user in `users` has the id `id`.
pub open spec fn has_user_id(users: Seq<UserView>, id: i32) -> bool {
    exists|i: int| 0 <= i < users.len() && (#[trigger] users[i]).id == id
}

/// The user with the id `id`, if there is one.
pub open spec fn find_user_by_id(users: Seq<UserView>, id: i32) -> Option<UserView> {
    if has_user_id(users, id) {
        Some(users[choose|i: int| 0 <= i < users.len() && (#[trigger] users[i]).id == id])
    } else {
        None
    }
}

/// Whether a credential is stored for the user with the id `userid`.
pub open spec fn has_credential(authentications: Seq<AuthenticationView>, userid: i32) -> bool {
    exists|i: int|
        0 <= i < authentications.len() && (#[trigger] authentications[i]).userid == userid
}

/// Where in `authentications` the credential of the user `userid` stands,
/// if there is one.
pub open spec fn index_of_credential(
    authentications: Seq<AuthenticationView>,
    userid: i32,
) -> int {
    choose|i: int|
        0 <= i < authentications.len() && (#[trigger] authentications[i]).userid == userid
}

/// The credential of the user `userid`, if one is stored.
pub open spec fn find_credential(
    authentications: Seq<AuthenticationView>,
    userid: i32,
) -> Option<AuthenticationView> {
    if has_credential(authentications, userid) {
        Some(authentications[index_of_credential(authentications, userid)])
    } else {
        None
    }
}

/// Which messages a reader asks for: those strictly before an instant, or
/// those strictly after it.
#[derive(Debug, Clone, Copy, PartialEq, Eq, Structural)]
pub enum MessageFilter {
    Before(i64),
    After(i64),
}

/// How many messages one reading returns at most.
pub const MESSAGE_LIMIT: usize = 20;

/// Whether `filter` lets a message of the date `date` through.
pub open spec fn admits(filter: MessageFilter, date: i64) -> bool {
    match filter {
        MessageFilter::Before(t) => date < t,
        MessageFilter::After(t) => date > t,
    }
}

/// `admits`, as a test on messages.
pub open spec fn admitted_by(filter: MessageFilter) -> spec_fn(MessageView) -> bool {
    |m: MessageView| admits(filter, m.date)
}

/// What a reading of `messages` through `filter` returns: of the messages
/// that the filter lets through, in the order of the table, the first
/// `limit`.
pub open spec fn select_messages(
    messages: Seq<MessageView>,
    filter: MessageFilter,
    limit: int,
) -> Seq<MessageView> {
    let hits = messages.filter(admitted_by(filter));
    if hits.len() <= limit {
        hits
    } else {
        hits.take(limit)
    }
}

/// Whether a message of the date `date` belongs at the index `at`: behind
/// every message that is not later, before every message that is.
pub open spec fn is_insertion_point(messages: Seq<MessageView>, date: i64, at: int) -> bool {
    &&& 0 <= at <= messages.len()
    &&& forall|i: int| 0 <= i < at ==> (#[trigger] messages[i]).date <= date
    &&& forall|i: int| at <= i < messages.len() ==> (#[trigger] messages[i]).date > date
}

/// The index at which a message of the date `date` belongs.
pub open spec fn insertion_point(messages: Seq<MessageView>, date: i64) -> int {
    choose|at: int| is_insertion_point(messages, date, at)
}

/// Whether some credential in `authentications` has the id `id`.
pub open spec fn has_authentication_id(authentications: Seq<AuthenticationView>, id: i32) -> bool {
    exists|i: int| 0 <= i < authentications.len() && (#[trigger] authentications[i]).id == id
}

/// Whether some message in `messages` has the id `id`.
pub open spec fn has_message_id(messages: Seq<MessageView>, id: i32) -> bool {
    exists|i: int| 0 <= i < messages.len() && (#[trigger] messages[i]).id == id
}

/// Whether a record may have the id `id`: ids start at 1, and stop short
/// of the last number, so that there is always a next one to name.
pub open spec fn id_in_range(id: i32) -> bool {
    1 <= id < i32::MAX
}

/// The id to hand out next, once a record with the id `id` is in the
/// table.
pub open spec fn next_id_after(next: i32, id: i32) -> i32 {
    if id >= next {
        (id + 1) as i32
    } else {
        next
    }
}

/// The invariant of the table of users: ids from 1 up to the next one to
/// hand out, no id twice, no name twice.
pub open spec fn users_wf(users: Seq<UserView>, next_id: i32) -> bool {
    &&& 1 <= next_id
    &&& forall|i: int| 0 <= i < users.len() ==> 1 <= (#[trigger] users[i]).id < next_id
    &&& forall|i: int, j: int|
        0 <= i < j < users.len() ==> (#[trigger] users[i]).id != (#[trigger] users[j]).id
    &&& forall|i: int, j: int|
        0 <= i < j < users.len() ==> (#[trigger] users[i]).username != (
        #[trigger] users[j]).username
}

/// The invariant of the table of credentials: ids as for users, at most one
/// credential for a user, and every hash one that can be verified against.
pub open spec fn credentials_wf(authentications: Seq<AuthenticationView>, next_id: i32) -> bool {
    &&& 1 <= next_id
    &&& forall|i: int|
        0 <= i < authentications.len() ==> 1 <= (#[trigger] authentications[i]).id < next_id
    &&& forall|i: int, j: int|
        0 <= i < j < authentications.len() ==> (#[trigger] authentications[i]).id != (
        #[trigger] authentications[j]).id
    &&& forall|i: int, j: int|
        0 <= i < j < authentications.len() ==> (#[trigger] authentications[i]).userid != (
        #[trigger] authentications[j]).userid
    &&& forall|i: int|
        0 <= i < authentications.len() ==> hash_verifiable(
            (#[trigger] authentications[i]).hashedpassword,
        )
}

/// Whether `messages` is in the order of its dates.
pub open spec fn ordered_by_date(messages: Seq<MessageView>) -> bool {
    forall|i: int, j: int|
        0 <= i < j < messages.len() ==> (#[trigger] messages[i]).date <= (
        #[trigger] messages[j]).date
}

/// The invariant of the table of messages: ids as for users, and the
/// messages in the order of their dates.
pub open spec fn messages_wf(messages: Seq<MessageView>, next_id: i32) -> bool {
    &&& 1 <= next_id
    &&& forall|i: int| 0 <= i < messages.len() ==> 1 <= (#[trigger] messages[i]).id < next_id
    &&& forall|i: int, j: int|
        0 <= i < j < messages.len() ==> (#[trigger] messages[i]).id != (#[trigger] messages[j]).id
    &&& ordered_by_date(messages)
}

impl DatabaseView {
    /// The store without a record, whose first ids will be 1.
    pub open spec fn empty() -> DatabaseView {
        DatabaseView {
            users: Seq::empty(),
            authentications: Seq::empty(),
            messages: Seq::empty(),
            next_user_id: 1,
            next_authentication_id: 1,
            next_message_id: 1,
        }
    }

    /// The invariant of the store.
    pub open spec fn wf(self) -> bool {
        &&& users_wf(self.users, self.next_user_id)
        &&& credentials_wf(self.authentications, self.next_authentication_id)
        &&& messages_wf(self.messages, self.next_message_id)
    }

    /// What creating a user named `name` answers.
    pub open spec fn create_user_outcome(self, name: Seq<char>) -> Result<(), DbError> {
        if has_username(self.users, name) {
            Err(DbError::UsernameInUse)
        } else if self.next_user_id == i32::MAX {
            Err(DbError::UserCreationFailed)
        } else {
            Ok(())
        }
    }

    /// The store after an attempt to create a user named `name`.
    pub open spec fn after_create_user(self, name: Seq<char>) -> DatabaseView {
        if self.create_user_outcome(name) is Ok {
            DatabaseView {
                users: self.users.push(UserView { id: self.next_user_id, username: name }),
                next_user_id: (self.next_user_id + 1) as i32,
                ..self
            }
        } else {
            self
        }
    }

    /// What renaming the user `current` to `new` answers. A name that is
    /// taken is refused before the user is looked for.
    pub open spec fn change_username_outcome(
        self,
        current: Seq<char>,
        new: Seq<char>,
    ) -> Result<(), DbError> {
        if has_username(self.users, new) {
            Err(DbError::UsernameInUse)
        } else if !has_username(self.users, current) {
            Err(DbError::UserNotFound)
        } else {
            Ok(())
        }
    }

    /// The store after an attempt to rename the user `current` to `new`.
    pub open spec fn after_change_username(self, current: Seq<char>, new: Seq<char>) -> DatabaseView {
        if self.change_username_outcome(current, new) is Ok {
            let at = index_of_username(self.users, current);
            DatabaseView {
                users: self.users.update(at, UserView { id: self.users[at].id, username: new }),
                ..self
            }
        } else {
            self
        }
    }

    /// What deleting the user named `name` answers.
    pub open spec fn delete_user_outcome(self, name: Seq<char>) -> Result<(), DbError> {
        if has_username(self.users, name) {
            Ok(())
        } else {
            Err(DbError::UserNotFound)
        }
    }

    /// The store after an attempt to delete the user named `name`.
    pub open spec fn after_delete_user(self, name: Seq<char>) -> DatabaseView {
        if has_username(self.users, name) {
            DatabaseView { users: self.users.remove(index_of_username(self.users, name)), ..self }
        } else {
            self
        }
    }

    /// What storing a password hash for the user named `username` answers.
    pub open spec fn set_password_outcome(self, username: Seq<char>) -> Result<(), DbError> {
        match find_user_by_name(self.users, username) {
            None => Err(DbError::UserNotFound),
            Some(user) => if has_credential(self.authentications, user.id) {
                Ok(())
            } else if self.next_authentication_id == i32::MAX {
                Err(DbError::GenericError)
            } else {
                Ok(())
            },
        }
    }

    /// The store after an attempt to store `hash` for the user named
    /// `username`: the user's credential holds the hash, in place of an
    /// earlier one if there was one.
    pub open spec fn after_set_password(self, username: Seq<char>, hash: Seq<char>) -> DatabaseView {
        match find_user_by_name(self.users, username) {
            None => self,
            Some(user) => if has_credential(self.authentications, user.id) {
                let at = index_of_credential(self.authentications, user.id);
                DatabaseView {
                    authentications: self.authentications.update(
                        at,
                        AuthenticationView {
                            id: self.authentications[at].id,
                            userid: user.id,
                            hashedpassword: hash,
                        },
                    ),
                    ..self
                }
            } else if self.next_authentication_id == i32::MAX {
                self
            } else {
                DatabaseView {
                    authentications: self.authentications.push(
                        AuthenticationView {
                            id: self.next_authentication_id,
                            userid: user.id,
                            hashedpassword: hash,
                        },
                    ),
                    next_authentication_id: (self.next_authentication_id + 1) as i32,
                    ..self
                }
            },
        }
    }

    /// What checking `password` for the user named `username` answers.
    pub open spec fn check_password_outcome(
        self,
        username: Seq<char>,
        password: Seq<char>,
    ) -> Result<bool, DbError> {
        match find_user_by_name(self.users, username) {
            None => Err(DbError::UserNotFound),
            Some(user) => match find_credential(self.authentications, user.id) {
                None => Err(DbError::NoPasswordSet),
                Some(credential) => Ok(hash_matches(password, credential.hashedpassword)),
            },
        }
    }

    /// What storing a message answers: the stored record, with the next
    /// free id.
    pub open spec fn create_message_outcome(
        self,
        text: Seq<char>,
        userid: i32,
        now: i64,
    ) -> Result<MessageView, DbError> {
        if self.next_message_id == i32::MAX {
            Err(DbError::GenericError)
        } else {
            Ok(MessageView { id: self.next_message_id, date: now, messagetext: text, userid })
        }
    }

    /// The store after an attempt to store a message: the record stands
    /// where its date puts it.
    pub open spec fn after_create_message(self, text: Seq<char>, userid: i32, now: i64) -> DatabaseView {
        match self.create_message_outcome(text, userid, now) {
            Err(_) => self,
            Ok(message) => DatabaseView {
                messages: self.messages.insert(insertion_point(self.messages, now), message),
                next_message_id: (self.next_message_id + 1) as i32,
                ..self
            },
        }
    }

    /// What putting back a user that was stored before answers: its id
    /// must be in range and free, and its name free.
    pub open spec fn restore_user_outcome(self, user: UserView) -> Result<(), DbError> {
        if !id_in_range(user.id) || has_user_id(self.users, user.id) {
            Err(DbError::GenericError)
        } else if has_username(self.users, user.username) {
            Err(DbError::UsernameCollisionDetected)
        } else {
            Ok(())
        }
    }

    /// The store after an attempt to put back `user`.
    pub open spec fn after_restore_user(self, user: UserView) -> DatabaseView {
        if self.restore_user_outcome(user) is Ok {
            DatabaseView {
                users: self.users.push(user),
                next_user_id: next_id_after(self.next_user_id, user.id),
                ..self
            }
        } else {
            self
        }
    }

    /// What putting back a credential that was stored before answers: its
    /// id must be in range and free, its user without a credential, and
    /// its hash one that can be verified against.
    pub open spec fn restore_authentication_outcome(
        self,
        credential: AuthenticationView,
    ) -> Result<(), DbError> {
        if !id_in_range(credential.id) || has_authentication_id(
            self.authentications,
            credential.id,
        ) || has_credential(self.authentications, credential.userid) {
            Err(DbError::GenericError)
        } else if !hash_verifiable(credential.hashedpassword) {
            Err(DbError::MalformedPasswordHash)
        } else {
            Ok(())
        }
    }

    /// The store after an attempt to put back `credential`.
    pub open spec fn after_restore_authentication(
        self,
        credential: AuthenticationView,
    ) -> DatabaseView {
        if self.restore_authentication_outcome(credential) is Ok {
            DatabaseView {
                authentications: self.authentications.push(credential),
                next_authentication_id: next_id_after(self.next_authentication_id, credential.id),
                ..self
            }
        } else {
            self
        }
    }

    /// What putting back a message that was stored before answers: its id
    /// must be in range and free.
    pub open spec fn restore_message_outcome(self, message: MessageView) -> Result<(), DbError> {
        if !id_in_range(message.id) || has_message_id(self.messages, message.id) {
            Err(DbError::GenericError)
        } else {
            Ok(())
        }
    }

    /// The store after an attempt to put back `message`: it stands where
    /// its date puts it.
    pub open spec fn after_restore_message(self, message: MessageView) -> DatabaseView {
        if self.restore_message_outcome(message) is Ok {
            DatabaseView {
                messages: self.messages.insert(
                    insertion_point(self.messages, message.date),
                    message,
                ),
                next_message_id: next_id_after(self.next_message_id, message.id),
                ..self
            }
        } else {
            self
        }
    }
}

/// In a table without a name twice, the user found under a name is the one
/// at any index that holds the name.
pub proof fn lemma_username_found(users: Seq<UserView>, next_id: i32, at: int)
    requires
        users_wf(users, next_id),
        0 <= at < users.len(),
    ensures
        has_username(users, users[at].username),
        index_of_username(users, users[at].username) == at,
        find_user_by_name(users, users[at].username) == Some(users[at]),
        has_user_id(users, users[at].id),
        find_user_by_id(users, users[at].id) == Some(users[at]),
{
    let name = users[at].username;
    let j = index_of_username(users, name);
    assert(users[j].username == name);
    if j < at {
        assert(users[j].username != users[at].username);
    } else if at < j {
        assert(users[at].username != users[j].username);
    }
    let id = users[at].id;
    let k = choose|i: int| 0 <= i < users.len() && (#[trigger] users[i]).id == id;
    assert(users[k].id == id);
    if k < at {
        assert(users[k].id != users[at].id);
    } else if at < k {
        assert(users[at].id != users[k].id);
    }
}

/// The user found under an id has that id.
pub proof fn lemma_found_user_has_id(users: Seq<UserView>, id: i32)
    ensures
        find_user_by_id(users, id) matches Some(user) ==> user.id == id,
{
}

/// In a table with at most one credential for a user, the credential found
/// for a user is the one at any index that holds the user's id.
pub proof fn lemma_credential_found(
    authentications: Seq<AuthenticationView>,
    next_id: i32,
    at: int,
)
    requires
        credentials_wf(authentications, next_id),
        0 <= at < authentications.len(),
    ensures
        has_credential(authentications, authentications[at].userid),
        index_of_credential(authentications, authentications[at].userid) == at,
        find_credential(authentications, authentications[at].userid) == Some(authentications[at]),
{
    let userid = authentications[at].userid;
    let j = index_of_credential(authentications, userid);
    assert(authentications[j].userid == userid);
    if j < at {
        assert(authentications[j].userid != authentications[at].userid);
    } else if at < j {
        assert(authentications[at].userid != authentications[j].userid);
    }
}

/// Storing a hash that the hasher can read keeps the store's invariant.
pub proof fn lemma_set_password_keeps_wf(db: DatabaseView, username: Seq<char>, hash: Seq<char>)
    requires
        db.wf(),
        hash_verifiable(hash),
    ensures
        db.after_set_password(username, hash).wf(),
{
    let after = db.after_set_password(username, hash);
    let before = db.authentications;
    if let Some(user) = find_user_by_name(db.users, username) {
        if has_credential(before, user.id) {
            let at = index_of_credential(before, user.id);
            assert(before[at].userid == user.id);
            assert forall|i: int| 0 <= i < before.len() implies (
            #[trigger] after.authentications[i]).id == before[i].id
                && after.authentications[i].userid == before[i].userid
                && hash_verifiable(after.authentications[i].hashedpassword) by {
                if i != at {
                    assert(after.authentications[i] == before[i]);
                }
            }
            assert forall|i: int, j: int|
                0 <= i < j < after.authentications.len() implies (
            #[trigger] after.authentications[i]).id != (#[trigger] after.authentications[j]).id by {
                assert(before[i].id != before[j].id);
            }
            assert forall|i: int, j: int|
                0 <= i < j < after.authentications.len() implies (
            #[trigger] after.authentications[i]).userid != (
            #[trigger] after.authentications[j]).userid by {
                assert(before[i].userid != before[j].userid);
            }
            assert forall|i: int| 0 <= i < after.authentications.len() implies 1 <= (
            #[trigger] after.authentications[i]).id < after.next_authentication_id by {
                assert(1 <= before[i].id < db.next_authentication_id);
            }
        } else if db.next_authentication_id != i32::MAX {
            assert forall|i: int| 0 <= i < before.len() implies (#[trigger] before[i]).userid
                != user.id by {}
            assert forall|i: int| 0 <= i < before.len() implies #[trigger] after.authentications[i]
                == before[i] by {}
            assert forall|i: int, j: int|
                0 <= i < j < after.authentications.len() implies (
            #[trigger] after.authentications[i]).id != (#[trigger] after.authentications[j]).id by {
                assert(1 <= before[i].id < db.next_authentication_id);
                if j < before.len() {
                    assert(before[i].id != before[j].id);
                }
            }
            assert forall|i: int, j: int|
                0 <= i < j < after.authentications.len() implies (
            #[trigger] after.authentications[i]).userid != (
            #[trigger] after.authentications[j]).userid by {
                assert(before[i].userid != user.id);
                if j < before.len() {
                    assert(before[i].userid != before[j].userid);
                }
            }
            assert forall|i: int| 0 <= i < after.authentications.len() implies 1 <= (
            #[trigger] after.authentications[i]).id < after.next_authentication_id
                && hash_verifiable(after.authentications[i].hashedpassword) by {
                if i < before.len() {
                    assert(1 <= before[i].id < db.next_authentication_id);
                    assert(hash_verifiable(before[i].hashedpassword));
                }
            }
        }
    }
}

/// There is one place only at which a message of a given date belongs.
pub proof fn lemma_insertion_point_unique(messages: Seq<MessageView>, date: i64, at: int)
    requires
        is_insertion_point(messages, date, at),
    ensures
        insertion_point(messages, date) == at,
{
    let other = insertion_point(messages, date);
    assert(is_insertion_point(messages, date, other));
    if other < at {
        assert(messages[other].date <= date);
        assert(messages[other].date > date);
    } else if at < other {
        assert(messages[at].date <= date);
        assert(messages[at].date > date);
    }
}

/// In a table in the order of its dates there is a place for every date.
pub proof fn lemma_insertion_point_exists(messages: Seq<MessageView>, date: i64)
    requires
        ordered_by_date(messages),
    ensures
        is_insertion_point(messages, date, insertion_point(messages, date)),
    decreases messages.len(),
{
    if messages.len() == 0 {
        assert(is_insertion_point(messages, date, 0));
    } else if messages.last().date <= date {
        let n = messages.len() as int;
        assert forall|i: int| 0 <= i < n implies (#[trigger] messages[i]).date <= date by {
            if i < n - 1 {
                assert(messages[i].date <= messages[n - 1].date);
            }
        }
        assert(is_insertion_point(messages, date, n));
    } else {
        let rest = messages.drop_last();
        assert forall|i: int, j: int| 0 <= i < j < rest.len() implies (#[trigger] rest[i]).date <= (
        #[trigger] rest[j]).date by {
            assert(messages[i].date <= messages[j].date);
        }
        lemma_insertion_point_exists(rest, date);
        let at = insertion_point(rest, date);
        assert forall|i: int| 0 <= i < at implies (#[trigger] messages[i]).date <= date by {
            assert(rest[i].date <= date);
        }
        assert forall|i: int| at <= i < messages.len() implies (#[trigger] messages[i]).date
            > date by {
            if i < rest.len() {
                assert(rest[i].date > date);
            }
        }
        assert(is_insertion_point(messages, date, at));
    }
}

/// Storing a message keeps the store's invariant.
pub proof fn lemma_create_message_keeps_wf(
    db: DatabaseView,
    text: Seq<char>,
    userid: i32,
    now: i64,
)
    requires
        db.wf(),
    ensures
        db.after_create_message(text, userid, now).wf(),
{
    let after = db.after_create_message(text, userid, now);
    if let Ok(message) = db.create_message_outcome(text, userid, now) {
        lemma_insertion_point_exists(db.messages, now);
        let at = insertion_point(db.messages, now);
        let before = db.messages;
        let source = |i: int| if i < at { i } else { i - 1 };
        assert forall|i: int| 0 <= i < after.messages.len() && i != at implies (
        #[trigger] after.messages[i]) == before[source(i)] by {}
        assert(after.messages[at] == message);
        assert forall|i: int| 0 <= i < after.messages.len() implies 1 <= (
        #[trigger] after.messages[i]).id < after.next_message_id by {
            if i != at {
                assert(1 <= before[source(i)].id < db.next_message_id);
            }
        }
        assert forall|i: int, j: int| 0 <= i < j < after.messages.len() implies (
        #[trigger] after.messages[i]).id != (#[trigger] after.messages[j]).id by {
            if i != at {
                assert(1 <= before[source(i)].id < db.next_message_id);
            }
            if j != at {
                assert(1 <= before[source(j)].id < db.next_message_id);
            }
            if i != at && j != at {
                assert(before[source(i)].id != before[source(j)].id);
            }
        }
        assert forall|i: int, j: int| 0 <= i < j < after.messages.len() implies (
        #[trigger] after.messages[i]).date <= (#[trigger] after.messages[j]).date by {
            if i != at && j != at {
                assert(before[source(i)].date <= before[source(j)].date);
            } else if i == at {
                assert(before[source(j)].date > now);
            } else {
                assert(before[source(i)].date <= now);
            }
        }
    }
}

/// Putting back a user keeps the store's invariant.
pub proof fn lemma_restore_user_keeps_wf(db: DatabaseView, user: UserView)
    requires
        db.wf(),
    ensures
        db.after_restore_user(user).wf(),
{
    let after = db.after_restore_user(user);
    if db.restore_user_outcome(user) is Ok {
        assert forall|i: int| 0 <= i < db.users.len() implies (#[trigger] db.users[i]).username
            != user.username && db.users[i].id != user.id by {}
        assert forall|i: int| 0 <= i < db.users.len() implies #[trigger] after.users[i]
            == db.users[i] by {}
        assert forall|i: int, j: int| 0 <= i < j < after.users.len() implies (
        #[trigger] after.users[i]).username != (#[trigger] after.users[j]).username && after.users[i].id
            != after.users[j].id by {
            assert(db.users[i].username != user.username);
            if j < db.users.len() {
                assert(db.users[i].username != db.users[j].username);
                assert(db.users[i].id != db.users[j].id);
            }
        }
        assert forall|i: int| 0 <= i < after.users.len() implies 1 <= (
        #[trigger] after.users[i]).id < after.next_user_id by {
            if i < db.users.len() {
                assert(1 <= db.users[i].id < db.next_user_id);
            }
        }
    }
}

/// Putting back a credential keeps the store's invariant.
pub proof fn lemma_restore_authentication_keeps_wf(db: DatabaseView, credential: AuthenticationView)
    requires
        db.wf(),
    ensures
        db.after_restore_authentication(credential).wf(),
{
    let after = db.after_restore_authentication(credential);
    let before = db.authentications;
    if db.restore_authentication_outcome(credential) is Ok {
        assert forall|i: int| 0 <= i < before.len() implies (#[trigger] before[i]).userid
            != credential.userid && before[i].id != credential.id by {}
        assert forall|i: int| 0 <= i < before.len() implies #[trigger] after.authentications[i]
            == before[i] by {}
        assert forall|i: int, j: int|
            0 <= i < j < after.authentications.len() implies (
        #[trigger] after.authentications[i]).id != (#[trigger] after.authentications[j]).id
            && after.authentications[i].userid != after.authentications[j].userid by {
            assert(before[i].userid != credential.userid);
            if j < before.len() {
                assert(before[i].id != before[j].id);
                assert(before[i].userid != before[j].userid);
            }
        }
        assert forall|i: int| 0 <= i < after.authentications.len() implies 1 <= (
        #[trigger] after.authentications[i]).id < after.next_authentication_id
            && hash_verifiable(after.authentications[i].hashedpassword) by {
            if i < before.len() {
                assert(1 <= before[i].id < db.next_authentication_id);
                assert(hash_verifiable(before[i].hashedpassword));
            }
        }
    }
}

/// Putting back a message keeps the store's invariant.
pub proof fn lemma_restore_message_keeps_wf(db: DatabaseView, message: MessageView)
    requires
        db.wf(),
    ensures
        db.after_restore_message(message).wf(),
{
    let after = db.after_restore_message(message);
    if db.restore_message_outcome(message) is Ok {
        let now = message.date;
        lemma_insertion_point_exists(db.messages, now);
        let at = insertion_point(db.messages, now);
        let before = db.messages;
        let source = |i: int| if i < at { i } else { i - 1 };
        assert forall|i: int| 0 <= i < before.len() implies (#[trigger] before[i]).id
            != message.id by {}
        assert forall|i: int| 0 <= i < after.messages.len() && i != at implies (
        #[trigger] after.messages[i]) == before[source(i)] by {}
        assert(after.messages[at] == message);
        assert forall|i: int| 0 <= i < after.messages.len() implies 1 <= (
        #[trigger] after.messages[i]).id < after.next_message_id by {
            if i != at {
                assert(1 <= before[source(i)].id < db.next_message_id);
            }
        }
        assert forall|i: int, j: int| 0 <= i < j < after.messages.len() implies (
        #[trigger] after.messages[i]).id != (#[trigger] after.messages[j]).id by {
            if i != at {
                assert(before[source(i)].id != message.id);
            }
            if j != at {
                assert(before[source(j)].id != message.id);
            }
            if i != at && j != at {
                assert(before[source(i)].id != before[source(j)].id);
            }
        }
        assert forall|i: int, j: int| 0 <= i < j < after.messages.len() implies (
        #[trigger] after.messages[i]).date <= (#[trigger] after.messages[j]).date by {
            if i != at && j != at {
                assert(before[source(i)].date <= before[source(j)].date);
            } else if i == at {
                assert(before[source(j)].date > now);
            } else {
                assert(before[source(i)].date <= now);
            }
        }
    }
}

/// Of two messages stored one after the other, the second with a date that
/// is not earlier, the first stands before the second.
pub proof fn lemma_later_message_stands_later(
    db: DatabaseView,
    first: Seq<char>,
    second: Seq<char>,
    author: i32,
    other: i32,
    now: i64,
    later: i64,
)
    requires
        db.wf(),
        now <= later,
        db.create_message_outcome(first, author, now) is Ok,
        db.after_create_message(first, author, now).create_message_outcome(second, other, later)
            is Ok,
    ensures
        ({
            let stored = db.after_create_message(first, author, now);
            let messages = stored.after_create_message(second, other, later).messages;
            let at = insertion_point(db.messages, now);
            let behind = insertion_point(stored.messages, later);
            &&& at < behind
            &&& messages[at] == db.create_message_outcome(first, author, now)->Ok_0
            &&& messages[behind] == stored.create_message_outcome(second, other, later)->Ok_0
        }),
{
    let stored = db.after_create_message(first, author, now);
    lemma_create_message_keeps_wf(db, first, author, now);
    lemma_insertion_point_exists(db.messages, now);
    lemma_insertion_point_exists(stored.messages, later);
    let at = insertion_point(db.messages, now);
    let behind = insertion_point(stored.messages, later);
    assert(stored.messages[at].date == now);
    if behind <= at {
        assert(stored.messages[at].date > later);
    }
}

/// Reading a table that is in the order of its dates returns at most
/// `limit` messages, each of which the filter lets through and the table
/// holds, in the order of their dates; and where it returns fewer than
/// `limit`, it returns every message that the filter lets through.
pub proof fn lemma_selection(messages: Seq<MessageView>, filter: MessageFilter, limit: int)
    requires
        ordered_by_date(messages),
        0 <= limit,
    ensures
        select_messages(messages, filter, limit).len() <= limit,
        forall|i: int|
            0 <= i < select_messages(messages, filter, limit).len() ==> admits(
                filter,
                (#[trigger] select_messages(messages, filter, limit)[i]).date,
            ) && messages.contains(select_messages(messages, filter, limit)[i]),
        ordered_by_date(select_messages(messages, filter, limit)),
        select_messages(messages, filter, limit).len() < limit ==> forall|k: int|
            0 <= k < messages.len() && admits(filter, (#[trigger] messages[k]).date)
                ==> select_messages(messages, filter, limit).contains(messages[k]),
{
    let pred = admitted_by(filter);
    let hits = messages.filter(pred);
    let out = select_messages(messages, filter, limit);
    lemma_filter_keeps_order(messages, pred);
    assert forall|i: int| 0 <= i < out.len() implies admits(filter, (#[trigger] out[i]).date)
        && messages.contains(out[i]) by {
        assert(out[i] == hits[i]);
        messages.lemma_filter_pred(pred, i);
        assert(hits.contains(hits[i]));
        messages.lemma_filter_contains_rev(pred, hits[i]);
    }
    assert forall|i: int, j: int| 0 <= i < j < out.len() implies (#[trigger] out[i]).date <= (
    #[trigger] out[j]).date by {
        assert(out[i] == hits[i]);
        assert(out[j] == hits[j]);
    }
    if out.len() < limit {
        assert forall|k: int|
            0 <= k < messages.len() && admits(filter, (#[trigger] messages[k]).date) implies out.contains(
            messages[k],
        ) by {
            assert(pred(messages[k]));
            messages.lemma_filter_contains(pred, k);
        }
    }
}

/// Filtering a table that is in the order of its dates leaves it so.
proof fn lemma_filter_keeps_order(messages: Seq<MessageView>, pred: spec_fn(MessageView) -> bool)
    requires
        ordered_by_date(messages),
    ensures
        ordered_by_date(messages.filter(pred)),
    decreases messages.len(),
{
    reveal(Seq::filter);
    if messages.len() > 0 {
        let rest = messages.drop_last();
        assert forall|i: int, j: int| 0 <= i < j < rest.len() implies (#[trigger] rest[i]).date <= (
        #[trigger] rest[j]).date by {
            assert(messages[i].date <= messages[j].date);
        }
        lemma_filter_keeps_order(rest, pred);
        let kept = rest.filter(pred);
        let hits = messages.filter(pred);
        assert forall|i: int, j: int| 0 <= i < j < hits.len() implies (#[trigger] hits[i]).date <= (
        #[trigger] hits[j]).date by {
            if j < kept.len() {
                assert(hits[i] == kept[i]);
                assert(hits[j] == kept[j]);
            } else {
                assert(hits[i] == kept[i]);
                assert(kept.contains(kept[i]));
                rest.lemma_filter_contains_rev(pred, kept[i]);
                let k = choose|k: int| 0 <= k < rest.len() && rest[k] == kept[i];
                assert(messages[k].date <= messages[messages.len() - 1].date);
            }
        }
    }
}

/// Creating a user keeps the store's invariant.
pub proof fn lemma_create_user_keeps_wf(db: DatabaseView, name: Seq<char>)
    requires
        db.wf(),
    ensures
        db.after_create_user(name).wf(),
{
    let after = db.after_create_user(name);
    if db.create_user_outcome(name) is Ok {
        assert forall|i: int| 0 <= i < db.users.len() implies (#[trigger] db.users[i]).username
            != name by {}
        assert forall|i: int, j: int| 0 <= i < j < after.users.len() implies (
        #[trigger] after.users[i]).username != (#[trigger] after.users[j]).username by {
            assert(after.users[i] == db.users[i]);
            if j < db.users.len() {
                assert(after.users[j] == db.users[j]);
            }
        }
        assert forall|i: int, j: int| 0 <= i < j < after.users.len() implies (
        #[trigger] after.users[i]).id != (#[trigger] after.users[j]).id by {
            assert(after.users[i] == db.users[i]);
            if j < db.users.len() {
                assert(after.users[j] == db.users[j]);
            }
        }
        assert forall|i: int| 0 <= i < after.users.len() implies 1 <= (
        #[trigger] after.users[i]).id < after.next_user_id by {
            if i < db.users.len() {
                assert(after.users[i] == db.users[i]);
            }
        }
    }
}

/// Renaming a user keeps the store's invariant.
pub proof fn lemma_change_username_keeps_wf(db: DatabaseView, current: Seq<char>, new: Seq<char>)
    requires
        db.wf(),
    ensures
        db.after_change_username(current, new).wf(),
{
    let after = db.after_change_username(current, new);
    if db.change_username_outcome(current, new) is Ok {
        let at = index_of_username(db.users, current);
        assert forall|i: int| 0 <= i < db.users.len() implies (#[trigger] db.users[i]).username
            != new by {}
        assert forall|i: int, j: int| 0 <= i < j < after.users.len() implies (
        #[trigger] after.users[i]).username != (#[trigger] after.users[j]).username by {
            if i != at {
                assert(after.users[i] == db.users[i]);
            }
            if j != at {
                assert(after.users[j] == db.users[j]);
            }
        }
        assert forall|i: int, j: int| 0 <= i < j < after.users.len() implies (
        #[trigger] after.users[i]).id != (#[trigger] after.users[j]).id by {
            assert(after.users[i].id == db.users[i].id);
            assert(after.users[j].id == db.users[j].id);
        }
        assert forall|i: int| 0 <= i < after.users.len() implies 1 <= (
        #[trigger] after.users[i]).id < after.next_user_id by {
            assert(after.users[i].id == db.users[i].id);
        }
    }
}

/// Deleting a user keeps the store's invariant.
pub proof fn lemma_delete_user_keeps_wf(db: DatabaseView, name: Seq<char>)
    requires
        db.wf(),
    ensures
        db.after_delete_user(name).wf(),
{
    let after = db.after_delete_user(name);
    if has_username(db.users, name) {
        let at = index_of_username(db.users, name);
        assert forall|i: int| 0 <= i < after.users.len() implies #[trigger] after.users[i]
            == db.users[if i < at { i } else { i + 1 }] by {}
        assert forall|i: int, j: int| 0 <= i < j < after.users.len() implies (
        #[trigger] after.users[i]).username != (#[trigger] after.users[j]).username by {
            let a = if i < at { i } else { i + 1 };
            let b = if j < at { j } else { j + 1 };
            assert(db.users[a].username != db.users[b].username);
        }
        assert forall|i: int, j: int| 0 <= i < j < after.users.len() implies (
        #[trigger] after.users[i]).id != (#[trigger] after.users[j]).id by {
            let a = if i < at { i } else { i + 1 };
            let b = if j < at { j } else { j + 1 };
            assert(db.users[a].id != db.users[b].id);
        }
        assert forall|i: int| 0 <= i < after.users.len() implies 1 <= (
        #[trigger] after.users[i]).id < after.next_user_id by {
            let a = if i < at { i } else { i + 1 };
            assert(1 <= db.users[a].id < db.next_user_id);
        }
    }
}

} // verus!
