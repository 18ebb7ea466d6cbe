//! The records the chat service keeps, and the mathematical value each stands for.

use vstd::prelude::*;
use vstd::string::StringExecFns;

verus! {

/// A registered user.
#[derive(Debug)]
pub struct User {
    pub id: i32,
    pub username: String,
}

/// What a [`User`] stands for in contracts.
pub struct UserView {
    pub id: i32,
    pub username: Seq<char>,
}

impl View for User {
    type V = UserView;

    open spec fn view(&self) -> UserView {
        UserView { id: self.id, username: self.username@ }
    }
}

impl Clone for User {
    fn clone(&self) -> (r: Self)
        ensures
            r == *self,
    {
        User { id: self.id, username: self.username.clone() }
    }
}

/// The stored credential of one user: the encoded hash of the password.
#[derive(Debug)]
pub struct Authentication {
    pub id: i32,
    pub userid: i32,
    pub hashedpassword: String,
}

/// What an [`Authentication`] stands for in contracts.
pub struct AuthenticationView {
    pub id: i32,
    pub userid: i32,
    pub hashedpassword: Seq<char>,
}

impl View for Authentication {
    type V = AuthenticationView;

    open spec fn view(&self) -> AuthenticationView {
        AuthenticationView { id: self.id, userid: self.userid, hashedpassword: self.hashedpassword@ }
    }
}

impl Clone for Authentication {
    fn clone(&self) -> (r: Self)
        ensures
            r == *self,
    {
        Authentication {
            id: self.id,
            userid: self.userid,
            hashedpassword: self.hashedpassword.clone(),
        }
    }
}

/// A stored chat message. `date` is the server's clock at insertion, in
/// milliseconds since the Unix epoch.
#[derive(Debug)]
pub struct Message {
    pub id: i32,
    pub date: i64,
    pub messagetext: String,
    pub userid: i32,
}

/// What a [`Message`] stands for in contracts.
pub struct MessageView {
    pub id: i32,
    pub date: i64,
    pub messagetext: Seq<char>,
    pub userid: i32,
}

impl View for Message {
    type V = MessageView;

    open spec fn view(&self) -> MessageView {
        MessageView {
            id: self.id,
            date: self.date,
            messagetext: self.messagetext@,
            userid: self.userid,
        }
    }
}

impl Clone for Message {
    fn clone(&self) -> (r: Self)
        ensures
            r == *self,
    {
        Message {
            id: self.id,
            date: self.date,
            messagetext: self.messagetext.clone(),
            userid: self.userid,
        }
    }
}

/// A user record before the store has given it an id.
pub struct NewUser<'a> {
    pub username: &'a str,
}

/// A credential record before the store has given it an id.
pub struct NewAuthentication {
    pub userid: i32,
    pub hashedpassword: String,
}

/// A message record before the store has given it an id.
pub struct NewMessage {
    pub date: i64,
    pub messagetext: String,
    pub userid: i32,
}

impl User {
    /// The user that `new` becomes under the id `id`.
    pub fn from_new(id: i32, new: NewUser<'_>) -> (user: User)
        ensures
            user@ == (UserView { id, username: new.username@ }),
    {
        User { id, username: String::from_str(new.username) }
    }
}

impl Authentication {
    /// The credential that `new` becomes under the id `id`.
    pub fn from_new(id: i32, new: NewAuthentication) -> (credential: Authentication)
        ensures
            credential@ == (AuthenticationView {
                id,
                userid: new.userid,
                hashedpassword: new.hashedpassword@,
            }),
    {
        Authentication { id, userid: new.userid, hashedpassword: new.hashedpassword }
    }
}

impl Message {
    /// The message that `new` becomes under the id `id`.
    pub fn from_new(id: i32, new: NewMessage) -> (message: Message)
        ensures
            message@ == (MessageView {
                id,
                date: new.date,
                messagetext: new.messagetext@,
                userid: new.userid,
            }),
    {
        Message { id, date: new.date, messagetext: new.messagetext, userid: new.userid }
    }
}

/// The body of a successful login response.
pub struct LoginResult {
    pub token: String,
}

/// The body of a login or registration request.
pub struct Credentials {
    pub username: String,
    pub password: String,
}

/// The views of a list of users, in order.
pub open spec fn user_views(users: Seq<User>) -> Seq<UserView> {
    users.map_values(|u: User| u@)
}

/// The views of a list of credentials, in order.
pub open spec fn authentication_views(authentications: Seq<Authentication>) -> Seq<
    AuthenticationView,
> {
    authentications.map_values(|a: Authentication| a@)
}

/// The views of a list of messages, in order.
pub open spec fn message_views(messages: Seq<Message>) -> Seq<MessageView> {
    messages.map_values(|m: Message| m@)
}

} // verus!
