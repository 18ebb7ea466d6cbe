use chat_app::screens::{
    FormElement, InputEvent, Intent, KeyCode, KeyKind, KeyModifiers, LoginWindowFocus, MenuState,
    Visibility, Window, WindowAction,
};

fn press(code: KeyCode) -> InputEvent {
    InputEvent::Key { code, modifiers: KeyModifiers::Plain, kind: KeyKind::Press }
}

fn type_text(window: &mut Window, text: &str) {
    for c in text.chars() {
        window.handle_input(&press(KeyCode::Char(c)));
    }
}

fn chat_window_of(name: &str) -> Window {
    let mut window = Window::new();
    window.handle_input(&press(KeyCode::Down));
    type_text(&mut window, name);
    window.login_succeeded();
    window
}

#[test]
fn new_window_is_an_empty_login_form() {
    let window = Window::new();
    assert_eq!(window.title(), "Log in");
    match window.state() {
        MenuState::Login(form) => {
            assert_eq!(form.address.title, "Server Address");
            assert_eq!(form.username.title, "Username");
            assert_eq!(form.password.title, "Password");
            assert_eq!(form.address.content, "");
            assert_eq!(form.username.content, "");
            assert_eq!(form.password.content, "");
            assert_eq!(form.address.visibility, Visibility::Visible);
            assert_eq!(form.password.visibility, Visibility::Hidden);
            assert_eq!(form.intent, Intent::Login);
            assert_eq!(form.focus, LoginWindowFocus::Address);
            assert_eq!(form.status_message, None);
        }
        MenuState::Chat(_) => panic!("a new window is a login form"),
    }
}

#[test]
fn typing_goes_to_the_line_in_focus() {
    let mut window = Window::new();
    type_text(&mut window, "host:1");
    window.handle_input(&press(KeyCode::Down));
    type_text(&mut window, "alice");
    window.handle_input(&press(KeyCode::Down));
    type_text(&mut window, "pw1");
    window.handle_input(&press(KeyCode::Backspace));
    window.handle_input(&press(KeyCode::Down));
    type_text(&mut window, "ignored");
    match window.state() {
        MenuState::Login(form) => {
            assert_eq!(form.address.content, "host:1");
            assert_eq!(form.username.content, "alice");
            assert_eq!(form.password.content, "pw");
            assert_eq!(form.focus, LoginWindowFocus::Intent);
        }
        MenuState::Chat(_) => panic!("still a login form"),
    }
}

#[test]
fn focus_stops_at_both_ends() {
    let mut window = Window::new();
    window.handle_input(&press(KeyCode::Up));
    let focus_of = |w: &Window| match w.state() {
        MenuState::Login(form) => form.focus,
        MenuState::Chat(_) => panic!("still a login form"),
    };
    assert_eq!(focus_of(&window), LoginWindowFocus::Address);
    for expected in [
        LoginWindowFocus::Username,
        LoginWindowFocus::Password,
        LoginWindowFocus::Intent,
        LoginWindowFocus::Intent,
    ] {
        window.handle_input(&press(KeyCode::Down));
        assert_eq!(focus_of(&window), expected);
    }
    for expected in [
        LoginWindowFocus::Password,
        LoginWindowFocus::Username,
        LoginWindowFocus::Address,
        LoginWindowFocus::Address,
    ] {
        window.handle_input(&press(KeyCode::Up));
        assert_eq!(focus_of(&window), expected);
    }
}

#[test]
fn intent_changes_only_with_the_focus_on_it() {
    let mut window = Window::new();
    window.handle_input(&press(KeyCode::Right));
    let intent_of = |w: &Window| match w.state() {
        MenuState::Login(form) => form.intent,
        MenuState::Chat(_) => panic!("still a login form"),
    };
    assert_eq!(intent_of(&window), Intent::Login);
    for _ in 0..3 {
        window.handle_input(&press(KeyCode::Down));
    }
    window.handle_input(&press(KeyCode::Right));
    assert_eq!(intent_of(&window), Intent::Register);
    window.handle_input(&press(KeyCode::Left));
    assert_eq!(intent_of(&window), Intent::Login);
}

#[test]
fn backspace_on_an_empty_line_does_nothing() {
    let mut window = Window::new();
    window.handle_input(&press(KeyCode::Backspace));
    match window.state() {
        MenuState::Login(form) => assert_eq!(form.address.content, ""),
        MenuState::Chat(_) => panic!("still a login form"),
    }
}

#[test]
fn enter_submits_what_the_form_holds() {
    let mut window = Window::new();
    type_text(&mut window, "localhost:8000");
    window.handle_input(&press(KeyCode::Down));
    type_text(&mut window, "alice");
    window.handle_input(&press(KeyCode::Down));
    type_text(&mut window, "pw1");
    match window.handle_input(&press(KeyCode::Enter)) {
        WindowAction::Submit { address, username, password, intent } => {
            assert_eq!(address, "localhost:8000");
            assert_eq!(username, "alice");
            assert_eq!(password, "pw1");
            assert_eq!(intent, Intent::Login);
        }
        _ => panic!("Enter submits the form"),
    }
    assert_eq!(window.title(), "Log in");
}

#[test]
fn key_coming_up_is_ignored() {
    let mut window = Window::new();
    let release = |code| InputEvent::Key {
        code,
        modifiers: KeyModifiers::Plain,
        kind: KeyKind::Release,
    };
    assert!(matches!(window.handle_input(&release(KeyCode::Char('a'))), WindowAction::Nothing));
    assert!(matches!(window.handle_input(&release(KeyCode::Enter)), WindowAction::Nothing));
    assert!(matches!(window.handle_input(&release(KeyCode::Down)), WindowAction::Nothing));
    match window.state() {
        MenuState::Login(form) => {
            assert_eq!(form.address.content, "");
            assert_eq!(form.focus, LoginWindowFocus::Address);
        }
        MenuState::Chat(_) => panic!("still a login form"),
    }
}

#[test]
fn successful_login_turns_the_form_into_a_chat() {
    let window = chat_window_of("alice");
    assert_eq!(window.title(), "alice");
    match window.state() {
        MenuState::Chat(chat) => {
            assert_eq!(chat.title, "alice");
            assert!(chat.message_list.is_empty());
            assert_eq!(chat.message_composer, "");
            assert_eq!(chat.status_message, None);
        }
        MenuState::Login(_) => panic!("the window is a chat now"),
    }
}

#[test]
fn failed_login_is_shown_on_the_status_line() {
    let mut window = Window::new();
    window.login_failed("Connection failed.");
    match window.state() {
        MenuState::Login(form) => {
            assert_eq!(form.status_message.as_deref(), Some("Login failed. (Connection failed.)"))
        }
        MenuState::Chat(_) => panic!("still a login form"),
    }
    window.session_failed("no events");
    match window.state() {
        MenuState::Login(form) => {
            assert_eq!(form.status_message.as_deref(), Some("Could not create session: no events"))
        }
        MenuState::Chat(_) => panic!("still a login form"),
    }
    window.handle_input(&press(KeyCode::Char('x')));
    match window.state() {
        MenuState::Login(form) => assert!(form.status_message.is_some()),
        MenuState::Chat(_) => panic!("still a login form"),
    }
}

#[test]
fn chat_composes_and_sends() {
    let mut window = chat_window_of("alice");
    type_text(&mut window, "hello!");
    window.handle_input(&press(KeyCode::Backspace));
    match window.handle_input(&press(KeyCode::Enter)) {
        WindowAction::Send { sender, text } => {
            assert_eq!(sender, "alice");
            assert_eq!(text, "hello");
        }
        _ => panic!("Enter sends the message"),
    }
    window.message_sent();
    match window.state() {
        MenuState::Chat(chat) => {
            assert_eq!(chat.message_composer, "");
            assert_eq!(chat.status_message.as_deref(), Some("Message sent."));
        }
        MenuState::Login(_) => panic!("the window is a chat"),
    }
    window.handle_input(&InputEvent::Other);
    match window.state() {
        MenuState::Chat(chat) => assert_eq!(chat.status_message, None),
        MenuState::Login(_) => panic!("the window is a chat"),
    }
}

#[test]
fn failed_send_keeps_the_message() {
    let mut window = chat_window_of("alice");
    type_text(&mut window, "hello");
    window.handle_input(&press(KeyCode::Enter));
    window.send_failed("Authentication failed.");
    match window.state() {
        MenuState::Chat(chat) => {
            assert_eq!(chat.message_composer, "hello");
            assert_eq!(
                chat.status_message.as_deref(),
                Some("Could not send message: Authentication failed.")
            );
        }
        MenuState::Login(_) => panic!("the window is a chat"),
    }
}

#[test]
fn chat_shows_the_newest_messages_that_fit() {
    let mut window = chat_window_of("alice");
    let lines: Vec<String> = (1..=5).map(|i| format!("alice: m{i}")).collect();
    window.update(lines.clone());
    assert_eq!(window.visible_messages(10), lines);
    assert_eq!(window.visible_messages(5), lines);
    assert_eq!(window.visible_messages(2), vec!["alice: m4", "alice: m5"]);
    assert!(window.visible_messages(0).is_empty());
    let mut form = Window::new();
    form.update(lines);
    assert!(form.visible_messages(10).is_empty());
    assert_eq!(form.title(), "Log in");
}

#[test]
fn hidden_element_shows_an_asterisk_for_each_byte() {
    let mut password = FormElement::new("Password", Visibility::Hidden);
    assert_eq!(password.display_content(), "");
    password.content = "pw1".to_string();
    assert_eq!(password.display_content(), "***");
    password.content = "pä".to_string();
    assert_eq!(password.display_content(), "***");
    let mut name = FormElement::new("Username", Visibility::Visible);
    name.content = "alice".to_string();
    assert_eq!(name.display_content(), "alice");
    assert_eq!(name.title, "Username");
}
