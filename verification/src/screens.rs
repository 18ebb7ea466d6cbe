//! The windows of the terminal client, as state: what each one shows, and
//! how a key changes it.
//!
//! A window starts as a login form and becomes a chat once a login has
//! succeeded. The window never talks to a server itself: a key that asks
//! for that returns the request as a [`WindowAction`], and whoever carries
//! it out reports back with one of the `login_*`, `session_*`, `message_*`
//! or `send_*` methods.

use crate::text::{line_views, optional_text, without_last};
use vstd::prelude::*;
use vstd::string::StringExecFns;

verus! {

/// The keys that a window tells apart.
#[derive(Debug, Clone, Copy, PartialEq, Eq, Structural)]
pub enum KeyCode {
    Up,
    Down,
    Left,
    Right,
    Enter,
    Backspace,
    Tab,
    BackTab,
    Char(char),
    Other,
}

/// Whether a key went down, is held, or came up.
#[derive(Debug, Clone, Copy, PartialEq, Eq, Structural)]
pub enum KeyKind {
    Press,
    Repeat,
    Release,
}

/// The modifier keys held with a key, as far as a window cares.
#[derive(Debug, Clone, Copy, PartialEq, Eq, Structural)]
pub enum KeyModifiers {
    Plain,
    /// Control, and no other modifier.
    Control,
    Other,
}

/// Something that happened at the terminal.
#[derive(Debug, Clone, Copy, PartialEq, Eq, Structural)]
pub enum InputEvent {
    Key { code: KeyCode, modifiers: KeyModifiers, kind: KeyKind },
    /// A resize, the mouse, a paste.
    Other,
}

/// What the user wants when they submit the login form.
#[derive(Debug, Clone, Copy, PartialEq, Eq, Structural)]
pub enum Intent {
    Login,
    Register,
}

/// The part of the login form that the keys go to.
#[derive(Debug, Clone, Copy, PartialEq, Eq, Structural)]
pub enum LoginWindowFocus {
    Address,
    Username,
    Password,
    Intent,
}

/// Whether a form element shows its content or hides it behind asterisks.
#[derive(Debug, Clone, Copy, PartialEq, Eq, Structural)]
pub enum Visibility {
    Visible,
    Hidden,
}

/// One line of a form: its title and what was typed into it.
pub struct FormElement {
    pub title: String,
    pub content: String,
    pub visibility: Visibility,
}

/// What a [`FormElement`] stands for in contracts.
pub struct FormElementView {
    pub title: Seq<char>,
    pub content: Seq<char>,
    pub visibility: Visibility,
}

impl View for FormElement {
    type V = FormElementView;

    open spec fn view(&self) -> FormElementView {
        FormElementView {
            title: self.title@,
            content: self.content@,
            visibility: self.visibility,
        }
    }
}

/// The state of a chat window.
pub struct ChatWindow {
    pub title: String,
    pub message_list: Vec<String>,
    pub message_composer: String,
    pub status_message: Option<String>,
}

/// What a [`ChatWindow`] stands for in contracts.
pub struct ChatWindowView {
    pub title: Seq<char>,
    pub message_list: Seq<Seq<char>>,
    pub message_composer: Seq<char>,
    pub status_message: Option<Seq<char>>,
}

impl View for ChatWindow {
    type V = ChatWindowView;

    open spec fn view(&self) -> ChatWindowView {
        ChatWindowView {
            title: self.title@,
            message_list: line_views(self.message_list@),
            message_composer: self.message_composer@,
            status_message: optional_text(self.status_message),
        }
    }
}

/// The state of a login window.
pub struct LoginWindow {
    pub address: FormElement,
    pub username: FormElement,
    pub password: FormElement,
    pub intent: Intent,
    pub focus: LoginWindowFocus,
    pub status_message: Option<String>,
}

/// What a [`LoginWindow`] stands for in contracts.
pub struct LoginWindowView {
    pub address: FormElementView,
    pub username: FormElementView,
    pub password: FormElementView,
    pub intent: Intent,
    pub focus: LoginWindowFocus,
    pub status_message: Option<Seq<char>>,
}

impl View for LoginWindow {
    type V = LoginWindowView;

    open spec fn view(&self) -> LoginWindowView {
        LoginWindowView {
            address: self.address@,
            username: self.username@,
            password: self.password@,
            intent: self.intent,
            focus: self.focus,
            status_message: optional_text(self.status_message),
        }
    }
}

/// What a window is at the moment.
pub enum MenuState {
    Chat(ChatWindow),
    Login(LoginWindow),
}

/// What a [`MenuState`] stands for in contracts.
pub enum MenuStateView {
    Chat(ChatWindowView),
    Login(LoginWindowView),
}

impl View for MenuState {
    type V = MenuStateView;

    open spec fn view(&self) -> MenuStateView {
        match *self {
            MenuState::Chat(chat) => MenuStateView::Chat(chat@),
            MenuState::Login(form) => MenuStateView::Login(form@),
        }
    }
}

/// What a window asks of whoever runs it.
pub enum WindowAction {
    /// Nothing.
    Nothing,
    /// Log in, or register and log in, with what the form holds.
    Submit { address: String, username: String, password: String, intent: Intent },
    /// Send `text` in the session of `sender`.
    Send { sender: String, text: String },
}

/// What a [`WindowAction`] stands for in contracts.
pub enum WindowActionView {
    Nothing,
    Submit { address: Seq<char>, username: Seq<char>, password: Seq<char>, intent: Intent },
    Send { sender: Seq<char>, text: Seq<char> },
}

impl View for WindowAction {
    type V = WindowActionView;

    open spec fn view(&self) -> WindowActionView {
        match *self {
            WindowAction::Nothing => WindowActionView::Nothing,
            WindowAction::Submit { address, username, password, intent } => WindowActionView::Submit {
                address: address@,
                username: username@,
                password: password@,
                intent,
            },
            WindowAction::Send { sender, text } => WindowActionView::Send {
                sender: sender@,
                text: text@,
            },
        }
    }
}

/// Where the focus goes on the key Up: one line up, and no further than
/// the first.
pub open spec fn focus_above(focus: LoginWindowFocus) -> LoginWindowFocus {
    match focus {
        LoginWindowFocus::Address => LoginWindowFocus::Address,
        LoginWindowFocus::Username => LoginWindowFocus::Address,
        LoginWindowFocus::Password => LoginWindowFocus::Username,
        LoginWindowFocus::Intent => LoginWindowFocus::Password,
    }
}

/// Where the focus goes on the key Down: one line down, and no further
/// than the last.
pub open spec fn focus_below(focus: LoginWindowFocus) -> LoginWindowFocus {
    match focus {
        LoginWindowFocus::Address => LoginWindowFocus::Username,
        LoginWindowFocus::Username => LoginWindowFocus::Password,
        LoginWindowFocus::Password => LoginWindowFocus::Intent,
        LoginWindowFocus::Intent => LoginWindowFocus::Intent,
    }
}

/// A form element after `edit` was applied to its content.
pub open spec fn with_content(element: FormElementView, content: Seq<char>) -> FormElementView {
    FormElementView { content, ..element }
}

/// A login form after `edit` was applied to the content of the line in
/// focus. With the focus on the choice of intent there is nothing to edit.
pub open spec fn edit_focused(
    form: LoginWindowView,
    edit: spec_fn(Seq<char>) -> Seq<char>,
) -> LoginWindowView {
    match form.focus {
        LoginWindowFocus::Address => LoginWindowView {
            address: with_content(form.address, edit(form.address.content)),
            ..form
        },
        LoginWindowFocus::Username => LoginWindowView {
            username: with_content(form.username, edit(form.username.content)),
            ..form
        },
        LoginWindowFocus::Password => LoginWindowView {
            password: with_content(form.password, edit(form.password.content)),
            ..form
        },
        LoginWindowFocus::Intent => form,
    }
}

/// A login form after the key `code`.
pub open spec fn login_after_key(form: LoginWindowView, code: KeyCode) -> LoginWindowView {
    match code {
        KeyCode::Up => LoginWindowView { focus: focus_above(form.focus), ..form },
        KeyCode::Down => LoginWindowView { focus: focus_below(form.focus), ..form },
        KeyCode::Left => if form.focus == LoginWindowFocus::Intent {
            LoginWindowView { intent: Intent::Login, ..form }
        } else {
            form
        },
        KeyCode::Right => if form.focus == LoginWindowFocus::Intent {
            LoginWindowView { intent: Intent::Register, ..form }
        } else {
            form
        },
        KeyCode::Char(c) => edit_focused(form, |text: Seq<char>| text.push(c)),
        KeyCode::Backspace => edit_focused(form, |text: Seq<char>| without_last(text)),
        _ => form,
    }
}

/// A chat window after the key `code`: a character goes to the end of the
/// composer, Backspace takes the last one off.
pub open spec fn chat_after_key(chat: ChatWindowView, code: KeyCode) -> ChatWindowView {
    match code {
        KeyCode::Char(c) => ChatWindowView {
            message_composer: chat.message_composer.push(c),
            ..chat
        },
        KeyCode::Backspace => ChatWindowView {
            message_composer: without_last(chat.message_composer),
            ..chat
        },
        _ => chat,
    }
}

/// Whether `event` is a key coming up, which a window ignores.
pub open spec fn is_release(event: InputEvent) -> bool {
    event matches InputEvent::Key { kind: KeyKind::Release, .. }
}

/// A window after `event`. A key coming up changes nothing. Any other
/// event clears the status line of a chat, and a key then edits the
/// window.
pub open spec fn after_input(window: MenuStateView, event: InputEvent) -> MenuStateView {
    if is_release(event) {
        window
    } else {
        match window {
            MenuStateView::Chat(chat) => {
                let cleared = ChatWindowView { status_message: None, ..chat };
                match event {
                    InputEvent::Key { code, .. } => MenuStateView::Chat(chat_after_key(cleared, code)),
                    InputEvent::Other => MenuStateView::Chat(cleared),
                }
            },
            MenuStateView::Login(form) => match event {
                InputEvent::Key { code, .. } => MenuStateView::Login(login_after_key(form, code)),
                InputEvent::Other => window,
            },
        }
    }
}

/// What a window asks for on `event`: on Enter, a login form asks to be
/// submitted and a chat asks for its composer to be sent.
pub open spec fn action_of_input(window: MenuStateView, event: InputEvent) -> WindowActionView {
    match event {
        InputEvent::Key { code: KeyCode::Enter, modifiers: _, kind } => if kind
            == KeyKind::Release {
            WindowActionView::Nothing
        } else {
            match window {
                MenuStateView::Chat(chat) => WindowActionView::Send {
                    sender: chat.title,
                    text: chat.message_composer,
                },
                MenuStateView::Login(form) => WindowActionView::Submit {
                    address: form.address.content,
                    username: form.username.content,
                    password: form.password.content,
                    intent: form.intent,
                },
            }
        },
        _ => WindowActionView::Nothing,
    }
}

/// The text `prefix` followed by `reason` and `suffix`.
pub open spec fn framed(prefix: Seq<char>, reason: Seq<char>, suffix: Seq<char>) -> Seq<char> {
    prefix + reason + suffix
}

/// `count` asterisks.
pub open spec fn asterisks(count: nat) -> Seq<char> {
    Seq::new(count, |i: int| '*')
}

/// What a form element displays: its content, or for a hidden one an
/// asterisk for each byte of the content.
pub open spec fn displayed(element: FormElementView) -> Seq<char> {
    match element.visibility {
        Visibility::Visible => element.content,
        Visibility::Hidden => asterisks(vstd::utf8::encode_utf8(element.content).len()),
    }
}

/// The last `rows` lines of `lines`, or all of them where there are fewer.
pub open spec fn last_lines(lines: Seq<Seq<char>>, rows: nat) -> Seq<Seq<char>> {
    if lines.len() <= rows {
        lines
    } else {
        lines.skip(lines.len() - rows)
    }
}

impl FormElement {
    /// An empty form element under `title`.
    pub fn new(title: &str, visibility: Visibility) -> (element: FormElement)
        ensures
            element@ == (FormElementView { title: title@, content: Seq::empty(), visibility }),
    {
        FormElement { content: String::new(), title: String::from_str(title), visibility }
    }

    /// What the element displays.
    pub fn display_content(&self) -> (shown: String)
        ensures
            shown@ == displayed(self@),
    {
        match self.visibility {
            Visibility::Visible => self.content.clone(),
            Visibility::Hidden => {
                let count = self.content.as_str().as_bytes().len();
                let mut shown = String::new();
                let mut i: usize = 0;
                while i < count
                    invariant
                        i <= count,
                        shown@ == asterisks(i as nat),
                    decreases count - i,
                {
                    shown.push('*');
                    assert(shown@ =~= asterisks((i + 1) as nat));
                    i += 1;
                }
                shown
            },
        }
    }
}

/// A window of the client.
pub struct Window {
    state: MenuState,
}

impl View for Window {
    type V = MenuStateView;

    closed spec fn view(&self) -> MenuStateView {
        self.state@
    }
}

/// The login form that a new window shows.
pub open spec fn fresh_login_form() -> LoginWindowView {
    LoginWindowView {
        address: FormElementView {
            title: "Server Address"@,
            content: Seq::empty(),
            visibility: Visibility::Visible,
        },
        username: FormElementView {
            title: "Username"@,
            content: Seq::empty(),
            visibility: Visibility::Visible,
        },
        password: FormElementView {
            title: "Password"@,
            content: Seq::empty(),
            visibility: Visibility::Hidden,
        },
        intent: Intent::Login,
        focus: LoginWindowFocus::Address,
        status_message: None,
    }
}

/// The title of a window: of a chat the name of its user, of a login form
/// "Log in".
pub open spec fn title_of(window: MenuStateView) -> Seq<char> {
    match window {
        MenuStateView::Chat(chat) => chat.title,
        MenuStateView::Login(_) => "Log in"@,
    }
}

/// The chat that a login form turns into once its login has succeeded.
pub open spec fn chat_of(form: LoginWindowView) -> ChatWindowView {
    ChatWindowView {
        title: form.username.content,
        message_list: Seq::empty(),
        message_composer: Seq::empty(),
        status_message: None,
    }
}

/// A window with `status` on its status line.
pub open spec fn with_status(window: MenuStateView, status: Seq<char>) -> MenuStateView {
    match window {
        MenuStateView::Chat(chat) => MenuStateView::Chat(
            ChatWindowView { status_message: Some(status), ..chat },
        ),
        MenuStateView::Login(form) => MenuStateView::Login(
            LoginWindowView { status_message: Some(status), ..form },
        ),
    }
}

impl Window {
    /// A new window: an empty login form, with the focus on the server's
    /// address and the intent to log in.
    pub fn new() -> (window: Window)
        ensures
            window@ == MenuStateView::Login(fresh_login_form()),
    {
        Window {
            state: MenuState::Login(
                LoginWindow {
                    address: FormElement::new("Server Address", Visibility::Visible),
                    username: FormElement::new("Username", Visibility::Visible),
                    password: FormElement::new("Password", Visibility::Hidden),
                    intent: Intent::Login,
                    focus: LoginWindowFocus::Address,
                    status_message: None,
                },
            ),
        }
    }

    /// The title of the window.
    pub fn title(&self) -> (title: String)
        ensures
            title@ == title_of(self@),
    {
        match &self.state {
            MenuState::Chat(window) => window.title.clone(),
            MenuState::Login(_) => String::from_str("Log in"),
        }
    }

    /// What the window is at the moment, to draw it.
    pub fn state(&self) -> (state: &MenuState)
        ensures
            state@ == self@,
    {
        &self.state
    }
    /// Takes an event from the terminal, and returns what the window asks
    /// for in answer to it.
    pub fn handle_input(&mut self, event: &InputEvent) -> (action: WindowAction)
        ensures
            final(self)@ == after_input(old(self)@, *event),
            action@ == action_of_input(old(self)@, *event),
    {
        let code = match event {
            InputEvent::Key { code: _, modifiers: _, kind: KeyKind::Release } => {
                return WindowAction::Nothing;
            },
            InputEvent::Key { code, modifiers: _, kind: _ } => Some(*code),
            InputEvent::Other => None,
        };
        match &mut self.state {
            MenuState::Chat(chat) => {
                chat.status_message = None;
                match code {
                    Some(KeyCode::Enter) => WindowAction::Send {
                        sender: chat.title.clone(),
                        text: chat.message_composer.clone(),
                    },
                    Some(KeyCode::Char(c)) => {
                        chat.message_composer.push(c);
                        WindowAction::Nothing
                    },
                    Some(KeyCode::Backspace) => {
                        chat.message_composer.pop();
                        WindowAction::Nothing
                    },
                    _ => WindowAction::Nothing,
                }
            },
            MenuState::Login(form) => {
                match code {
                    Some(KeyCode::Up) => {
                        form.focus = match form.focus {
                            LoginWindowFocus::Address | LoginWindowFocus::Username => {
                                LoginWindowFocus::Address
                            },
                            LoginWindowFocus::Password => LoginWindowFocus::Username,
                            LoginWindowFocus::Intent => LoginWindowFocus::Password,
                        };
                        WindowAction::Nothing
                    },
                    Some(KeyCode::Down) => {
                        form.focus = match form.focus {
                            LoginWindowFocus::Address => LoginWindowFocus::Username,
                            LoginWindowFocus::Username => LoginWindowFocus::Password,
                            LoginWindowFocus::Password | LoginWindowFocus::Intent => {
                                LoginWindowFocus::Intent
                            },
                        };
                        WindowAction::Nothing
                    },
                    Some(KeyCode::Left) => {
                        if form.focus == LoginWindowFocus::Intent {
                            form.intent = Intent::Login;
                        }
                        WindowAction::Nothing
                    },
                    Some(KeyCode::Right) => {
                        if form.focus == LoginWindowFocus::Intent {
                            form.intent = Intent::Register;
                        }
                        WindowAction::Nothing
                    },
                    Some(KeyCode::Enter) => WindowAction::Submit {
                        address: form.address.content.clone(),
                        username: form.username.content.clone(),
                        password: form.password.content.clone(),
                        intent: form.intent,
                    },
                    Some(KeyCode::Char(c)) => {
                        match form.focus {
                            LoginWindowFocus::Address => form.address.content.push(c),
                            LoginWindowFocus::Username => form.username.content.push(c),
                            LoginWindowFocus::Password => form.password.content.push(c),
                            LoginWindowFocus::Intent => {},
                        }
                        WindowAction::Nothing
                    },
                    Some(KeyCode::Backspace) => {
                        match form.focus {
                            LoginWindowFocus::Address => {
                                form.address.content.pop();
                            },
                            LoginWindowFocus::Username => {
                                form.username.content.pop();
                            },
                            LoginWindowFocus::Password => {
                                form.password.content.pop();
                            },
                            LoginWindowFocus::Intent => {},
                        }
                        WindowAction::Nothing
                    },
                    _ => WindowAction::Nothing,
                }
            },
        }
    }
    /// Reports that the login which the form asked for has succeeded, and
    /// that its session is set up: the window becomes the chat of the user
    /// named in the form. A window that is a chat already stays as it is.
    pub fn login_succeeded(&mut self)
        ensures
            final(self)@ == (match old(self)@ {
                MenuStateView::Login(form) => MenuStateView::Chat(chat_of(form)),
                MenuStateView::Chat(chat) => MenuStateView::Chat(chat),
            }),
    {
        let title = match &self.state {
            MenuState::Login(form) => form.username.content.clone(),
            MenuState::Chat(_) => {
                return ;
            },
        };
        self.state = MenuState::Chat(
            ChatWindow {
                title,
                message_list: Vec::new(),
                message_composer: String::new(),
                status_message: None,
            },
        );
        assert(line_views(Seq::<String>::empty()) =~= Seq::<Seq<char>>::empty());
    }

    /// Reports that the login which the form asked for has failed, for
    /// `reason`: the status line says so.
    pub fn login_failed(&mut self, reason: &str)
        ensures
            final(self)@ == with_status(old(self)@, framed("Login failed. ("@, reason@, ")"@)),
    {
        let status = String::from_str("Login failed. (").concat(reason).concat(")");
        self.set_status(status);
    }

    /// Reports that the login has succeeded but its session could not be
    /// set up, for `reason`: the status line says so.
    pub fn session_failed(&mut self, reason: &str)
        ensures
            final(self)@ == with_status(
                old(self)@,
                framed("Could not create session: "@, reason@, Seq::empty()),
            ),
    {
        let status = String::from_str("Could not create session: ").concat(reason);
        assert(status@ =~= framed("Could not create session: "@, reason@, Seq::empty()));
        self.set_status(status);
    }

    /// Reports that the message which the chat asked to send was sent: the
    /// composer is empty again, and the status line says so. A login form
    /// stays as it is.
    pub fn message_sent(&mut self)
        ensures
            final(self)@ == (match old(self)@ {
                MenuStateView::Chat(chat) => MenuStateView::Chat(
                    ChatWindowView {
                        message_composer: Seq::empty(),
                        status_message: Some("Message sent."@),
                        ..chat
                    },
                ),
                MenuStateView::Login(form) => MenuStateView::Login(form),
            }),
    {
        match &mut self.state {
            MenuState::Chat(chat) => {
                chat.message_composer = String::new();
                chat.status_message = Some(String::from_str("Message sent."));
            },
            MenuState::Login(_) => {},
        }
    }

    /// Reports that the message which the chat asked to send could not be
    /// sent, for `reason`: the status line says so, and the composer keeps
    /// the message.
    pub fn send_failed(&mut self, reason: &str)
        ensures
            final(self)@ == with_status(
                old(self)@,
                framed("Could not send message: "@, reason@, Seq::empty()),
            ),
    {
        let status = String::from_str("Could not send message: ").concat(reason);
        assert(status@ =~= framed("Could not send message: "@, reason@, Seq::empty()));
        self.set_status(status);
    }

    /// Puts `status` on the status line.
    fn set_status(&mut self, status: String)
        ensures
            final(self)@ == with_status(old(self)@, status@),
    {
        match &mut self.state {
            MenuState::Chat(chat) => {
                chat.status_message = Some(status);
            },
            MenuState::Login(form) => {
                form.status_message = Some(status);
            },
        }
    }

    /// Shows `lines` as the messages of the chat. A login form stays as it
    /// is.
    pub fn update(&mut self, lines: Vec<String>)
        ensures
            final(self)@ == (match old(self)@ {
                MenuStateView::Chat(chat) => MenuStateView::Chat(
                    ChatWindowView { message_list: line_views(lines@), ..chat },
                ),
                MenuStateView::Login(form) => MenuStateView::Login(form),
            }),
    {
        match &mut self.state {
            MenuState::Chat(chat) => {
                chat.message_list = lines;
            },
            MenuState::Login(_) => {},
        }
    }

    /// The messages to draw where there is room for `rows` of them: the
    /// newest ones, oldest first. A login form has none.
    pub fn visible_messages(&self, rows: usize) -> (lines: Vec<String>)
        ensures
            line_views(lines@) == (match self@ {
                MenuStateView::Chat(chat) => last_lines(chat.message_list, rows as nat),
                MenuStateView::Login(_) => Seq::<Seq<char>>::empty(),
            }),
    {
        let mut lines: Vec<String> = Vec::new();
        match &self.state {
            MenuState::Login(_) => {
                assert(line_views(lines@) =~= Seq::<Seq<char>>::empty());
            },
            MenuState::Chat(chat) => {
                let total = chat.message_list.len();
                let start = if total <= rows {
                    0
                } else {
                    total - rows
                };
                let mut i: usize = start;
                while i < total
                    invariant
                        start <= i <= total,
                        total == chat.message_list@.len(),
                        lines@.len() == i - start,
                        forall|k: int|
                            0 <= k < lines@.len() ==> (#[trigger] lines@[k])@
                                == chat.message_list@[start + k]@,
                    decreases total - i,
                {
                    lines.push(chat.message_list[i].clone());
                    i += 1;
                }
                assert(line_views(lines@) =~= last_lines(
                    line_views(chat.message_list@),
                    rows as nat,
                ));
            },
        }
        lines
    }
}

} // verus!
