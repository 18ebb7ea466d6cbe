use chat_app::screens::{InputEvent, KeyCode, KeyKind, KeyModifiers, MenuState, WindowAction};
use chat_app::ui::{App, AppAction, TabTitle};

fn key(code: KeyCode) -> InputEvent {
    InputEvent::Key { code, modifiers: KeyModifiers::Plain, kind: KeyKind::Press }
}

fn control(c: char) -> InputEvent {
    InputEvent::Key { code: KeyCode::Char(c), modifiers: KeyModifiers::Control, kind: KeyKind::Press }
}

fn tabs_of(app: &App) -> Vec<(bool, String)> {
    app.tab_titles()
        .into_iter()
        .map(|t| match t {
            TabTitle::Active(title) => (true, title),
            TabTitle::Inactive(title) => (false, title),
        })
        .collect()
}

#[test]
fn new_client_has_one_login_window() {
    let app = App::new();
    assert_eq!(tabs_of(&app), vec![(true, "Log in".to_string())]);
    assert_eq!(app.active_window().unwrap().title(), "Log in");
}

#[test]
fn control_q_quits() {
    let mut app = App::new();
    assert!(matches!(app.handle_event(&control('q')), AppAction::Quit));
    assert!(matches!(app.handle_event(&key(KeyCode::Char('q'))), AppAction::Window(_)));
    assert_eq!(tabs_of(&app).len(), 1);
}

#[test]
fn control_n_opens_a_window_and_moves_on() {
    let mut app = App::new();
    assert!(matches!(app.handle_event(&control('n')), AppAction::Nothing));
    assert_eq!(tabs_of(&app), vec![(false, "Log in".to_string()), (true, "Log in".to_string())]);
    app.handle_event(&control('n'));
    assert_eq!(
        tabs_of(&app).iter().map(|t| t.0).collect::<Vec<bool>>(),
        vec![false, false, true]
    );
    app.handle_event(&key(KeyCode::Tab));
    app.handle_event(&control('n'));
    assert_eq!(
        tabs_of(&app).iter().map(|t| t.0).collect::<Vec<bool>>(),
        vec![false, true, false, false]
    );
}

#[test]
fn tab_and_backtab_move_between_windows() {
    let mut app = App::new();
    app.handle_event(&control('n'));
    app.handle_event(&control('n'));
    let active_of = |app: &App| tabs_of(app).iter().position(|t| t.0).unwrap();
    assert_eq!(active_of(&app), 2);
    app.handle_event(&key(KeyCode::Tab));
    assert_eq!(active_of(&app), 0);
    app.handle_event(&key(KeyCode::Tab));
    assert_eq!(active_of(&app), 1);
    app.handle_event(&key(KeyCode::BackTab));
    assert_eq!(active_of(&app), 0);
    app.handle_event(&key(KeyCode::BackTab));
    assert_eq!(active_of(&app), 2);
    app.handle_event(&key(KeyCode::BackTab));
    assert_eq!(active_of(&app), 1);
}

#[test]
fn other_keys_go_to_the_active_window_only() {
    let mut app = App::new();
    app.handle_event(&control('n'));
    app.handle_event(&key(KeyCode::Down));
    for c in "bob".chars() {
        app.handle_event(&key(KeyCode::Char(c)));
    }
    match app.handle_event(&key(KeyCode::Enter)) {
        AppAction::Window(WindowAction::Submit { username, address, .. }) => {
            assert_eq!(username, "bob");
            assert_eq!(address, "");
        }
        _ => panic!("Enter submits the active form"),
    }
    app.active_window_mut().unwrap().login_succeeded();
    assert_eq!(tabs_of(&app), vec![(false, "Log in".to_string()), (true, "bob".to_string())]);
    app.handle_event(&key(KeyCode::Tab));
    match app.active_window().unwrap().state() {
        MenuState::Login(form) => assert_eq!(form.username.content, ""),
        MenuState::Chat(_) => panic!("the first window is still a login form"),
    }
}

#[test]
fn events_that_are_not_keys_are_ignored() {
    let mut app = App::new();
    assert!(matches!(app.handle_event(&InputEvent::Other), AppAction::Nothing));
    assert_eq!(tabs_of(&app), vec![(true, "Log in".to_string())]);
}
