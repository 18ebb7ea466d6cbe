use chat_app::broadcast::Delivery;
use chat_app::database::MessageFilter;
use chat_app::errors::{AppError, DbError};
use chat_app::service::ChatApp;
use chat_app::token::LoginToken;

fn app_token(text: &str) -> LoginToken {
    LoginToken(text.to_string())
}

fn app_with_alice() -> ChatApp {
    let mut app = ChatApp::new().unwrap();
    app.register("alice", "pw1").unwrap();
    app
}

#[test]
fn register_then_login_yields_a_token_for_that_user() {
    let mut app = ChatApp::new().unwrap();
    assert_eq!(app.register("alice", "pw1"), Ok(()));
    let token = app.login_with("alice", "pw1", app_token("T"), 1_000).unwrap();
    assert_eq!(token, app_token("T"));
    assert_eq!(app.get_username_for_token_at(&token, 1_000), Some("alice".to_string()));
    let user = app.get_user_for_token_at(&token, 2_000).unwrap();
    assert_eq!((user.id, user.username.as_str()), (1, "alice"));
}

#[test]
fn register_then_login_by_the_clock() {
    let mut app = ChatApp::new().unwrap();
    app.register("alice", "pw1").unwrap();
    let token = app.login("alice", "pw1").unwrap();
    assert_eq!(token.0.chars().count(), 10);
    assert_eq!(app.get_username_for_token(&token), Some("alice".to_string()));
    assert_eq!(app.get_user_for_token(&token).unwrap().username, "alice");
}

#[test]
fn register_refuses_a_name_in_use() {
    let mut app = app_with_alice();
    assert_eq!(
        app.register("alice", "other"),
        Err(AppError::DatabaseError(DbError::UsernameInUse))
    );
    assert!(app.login_with("alice", "other", app_token("T"), 0).is_err());
    assert!(app.login_with("alice", "pw1", app_token("T"), 0).is_ok());
}

#[test]
fn wrong_password_and_unknown_user_fail_alike() {
    let mut app = app_with_alice();
    let wrong = app.login_with("alice", "wrong", app_token("T1"), 0).unwrap_err();
    let unknown = app.login_with("nobody", "pw1", app_token("T2"), 0).unwrap_err();
    assert_eq!(wrong, AppError::LoginFailed);
    assert_eq!(unknown, AppError::LoginFailed);
    assert_eq!(wrong.message(), unknown.message());
    assert_eq!(app.login("alice", "wrong").unwrap_err(), AppError::LoginFailed);
    assert_eq!(app.login("nobody", "pw1").unwrap_err(), AppError::LoginFailed);
    assert_eq!(app.get_username_for_token_at(&app_token("T1"), 0), None);
    assert_eq!(app.get_username_for_token_at(&app_token("T2"), 0), None);
}

#[test]
fn user_without_a_password_cannot_log_in() {
    let mut db = chat_app::database::Database::new();
    chat_app::database::create_user(&mut db, "ghost").unwrap();
    let mut app = ChatApp::with_database(db);
    assert_eq!(app.login_with("ghost", "", app_token("T"), 0).unwrap_err(), AppError::LoginFailed);
}

#[test]
fn login_with_a_token_in_use_fails_and_keeps_the_session() {
    let mut app = app_with_alice();
    app.register("bob", "pw2").unwrap();
    app.login_with("alice", "pw1", app_token("T"), 0).unwrap();
    assert_eq!(
        app.login_with("bob", "pw2", app_token("T"), 10).unwrap_err(),
        AppError::LoginFailed
    );
    assert_eq!(app.get_username_for_token_at(&app_token("T"), 20), Some("alice".to_string()));
}

#[test]
fn a_second_login_does_not_end_the_first() {
    let mut app = app_with_alice();
    let first = app.login_with("alice", "pw1", app_token("T1"), 0).unwrap();
    let second = app.login_with("alice", "pw1", app_token("T2"), 5).unwrap();
    assert_ne!(first, second);
    assert_eq!(app.get_username_for_token_at(&first, 10), Some("alice".to_string()));
    assert_eq!(app.get_username_for_token_at(&second, 10), Some("alice".to_string()));
}

#[test]
fn end_to_end() {
    let mut app = ChatApp::new().unwrap();
    assert_eq!(app.register("alice", "pw1"), Ok(()));
    let session_start = 1_000_000;
    let token = app.login_with("alice", "pw1", app_token("T"), session_start).unwrap();
    assert_eq!(
        app.login_with("alice", "wrong", app_token("U"), session_start).unwrap_err(),
        AppError::LoginFailed
    );
    let sent = app.send_message_at(&token, "hi", session_start + 1).unwrap();
    assert_eq!(sent.messagetext, "hi");
    assert_eq!(sent.date, session_start + 1);
    assert_eq!(app.get_user_by_id(sent.userid).unwrap().username, "alice");
    let read = app
        .get_messages_at(&token, &MessageFilter::After(session_start), session_start + 2)
        .unwrap();
    assert_eq!(read.len(), 1);
    assert_eq!((read[0].id, read[0].messagetext.as_str()), (sent.id, "hi"));
    app.logout(&token);
    assert_eq!(
        app.get_messages_at(&token, &MessageFilter::After(0), session_start + 3).unwrap_err(),
        AppError::TokenInvalid
    );
    assert_eq!(
        app.send_message_at(&token, "still there?", session_start + 3).unwrap_err(),
        AppError::TokenInvalid
    );
    app.logout(&token);
}

#[test]
fn end_to_end_by_the_clock() {
    let mut app = ChatApp::new().unwrap();
    app.register("alice", "pw1").unwrap();
    let token = app.login("alice", "pw1").unwrap();
    let sent = app.send_message(&token, "hi").unwrap();
    let read = app.get_messages(&token, &MessageFilter::After(sent.date - 1)).unwrap();
    assert_eq!(read.len(), 1);
    assert_eq!(read[0].messagetext, "hi");
    assert!(app.get_messages(&token, &MessageFilter::Before(sent.date)).unwrap().is_empty());
    app.logout(&token);
    assert_eq!(
        app.get_messages(&token, &MessageFilter::After(0)).unwrap_err(),
        AppError::TokenInvalid
    );
    assert_eq!(app.send_message(&token, "x").unwrap_err(), AppError::TokenInvalid);
}

#[test]
fn expired_token_is_invalid_for_every_operation() {
    let mut app = app_with_alice();
    let token = app.login_with("alice", "pw1", app_token("T"), 0).unwrap();
    assert!(app.send_message_at(&token, "in time", 1_200_000).is_ok());
    assert_eq!(
        app.send_message_at(&token, "too late", 1_200_001).unwrap_err(),
        AppError::TokenInvalid
    );
    assert_eq!(
        app.get_messages_at(&token, &MessageFilter::After(0), 10).unwrap_err(),
        AppError::TokenInvalid
    );
    let again = app.login_with("alice", "pw1", app_token("T"), 1_300_000).unwrap();
    let read = app.get_messages_at(&again, &MessageFilter::After(0), 1_300_001).unwrap();
    assert_eq!(read.len(), 1);
    assert_eq!(read[0].messagetext, "in time");
}

#[test]
fn messages_are_read_through_the_filter_and_capped() {
    let mut app = app_with_alice();
    let token = app.login_with("alice", "pw1", app_token("T"), 0).unwrap();
    for i in 1..=25 {
        app.send_message_at(&token, &format!("m{i}"), i).unwrap();
    }
    let before = app.get_messages_at(&token, &MessageFilter::Before(11), 30).unwrap();
    assert_eq!(before.iter().map(|m| m.date).collect::<Vec<i64>>(), (1..=10).collect::<Vec<i64>>());
    let after = app.get_messages_at(&token, &MessageFilter::After(2), 30).unwrap();
    assert_eq!(after.iter().map(|m| m.date).collect::<Vec<i64>>(), (3..=22).collect::<Vec<i64>>());
}

#[test]
fn sent_message_goes_to_the_feed() {
    let mut app = app_with_alice();
    app.register("bob", "pw2").unwrap();
    let alice = app.login_with("alice", "pw1", app_token("A"), 0).unwrap();
    let bob = app.login_with("bob", "pw2", app_token("B"), 0).unwrap();
    let listener = app.subscribe_at(&bob, 1).unwrap().unwrap();
    let sent = app.send_message_at(&alice, "hello bob", 2).unwrap();
    match app.poll(listener) {
        Delivery::Message(m) => {
            assert_eq!((m.id, m.date, m.userid), (sent.id, 2, sent.userid));
            assert_eq!(m.messagetext, "hello bob");
        }
        other => panic!("expected the message, got {other:?}"),
    }
    assert!(matches!(app.poll(listener), Delivery::Empty));
    let late = app.subscribe_at(&alice, 3).unwrap().unwrap();
    assert!(matches!(app.poll(late), Delivery::Empty));
    app.unsubscribe(listener);
    assert!(matches!(app.poll(listener), Delivery::Closed));
}

#[test]
fn feed_needs_a_valid_token() {
    let mut app = app_with_alice();
    assert_eq!(app.subscribe_at(&app_token("none"), 0).unwrap_err(), AppError::TokenInvalid);
    assert_eq!(app.subscribe(&app_token("none")).unwrap_err(), AppError::TokenInvalid);
    let token = app.login("alice", "pw1").unwrap();
    assert_eq!(app.subscribe(&token), Ok(Some(0)));
}

#[test]
fn failed_send_reaches_nobody() {
    let mut app = app_with_alice();
    let token = app.login_with("alice", "pw1", app_token("T"), 0).unwrap();
    let listener = app.subscribe_at(&token, 0).unwrap().unwrap();
    assert!(app.send_message_at(&app_token("bad"), "x", 1).is_err());
    assert!(matches!(app.poll(listener), Delivery::Empty));
    assert!(app.get_messages_at(&token, &MessageFilter::After(-1), 2).unwrap().is_empty());
}

#[test]
fn unknown_user_id_is_not_found() {
    let mut app = app_with_alice();
    assert_eq!(app.get_user_by_id(1).unwrap().username, "alice");
    assert_eq!(
        app.get_user_by_id(2).unwrap_err(),
        AppError::DatabaseError(DbError::UserNotFound)
    );
    assert_eq!(
        app.get_user_by_id(0).unwrap_err(),
        AppError::DatabaseError(DbError::UserNotFound)
    );
}

#[test]
fn app_error_messages() {
    assert_eq!(
        AppError::DatabaseError(DbError::UserNotFound).message(),
        "A database operation caused an error"
    );
    assert_eq!(
        AppError::PoolError.message(),
        "Failed to obtain a connection from the connection pool"
    );
    assert_eq!(AppError::LoginFailed.message(), "Failed to login user");
    assert_eq!(AppError::TokenInvalid.message(), "The given token is invalid");
}

#[test]
fn registration_that_cannot_store_the_password_keeps_no_user() {
    let mut db = chat_app::database::Database::new();
    chat_app::database::restore_user(
        &mut db,
        chat_app::models::User { id: 1, username: "alice".to_string() },
    )
    .unwrap();
    chat_app::database::restore_authentication(
        &mut db,
        chat_app::models::Authentication {
            id: i32::MAX - 1,
            userid: 1,
            hashedpassword: chat_app::auth::generate_hash("pw1"),
        },
    )
    .unwrap();
    let mut app = ChatApp::with_database(db);
    assert_eq!(
        app.register("bob", "pw2"),
        Err(AppError::DatabaseError(DbError::GenericError))
    );
    assert_eq!(
        chat_app::database::get_user_by_name(app.database(), "bob").unwrap_err(),
        DbError::UserNotFound
    );
    assert!(app.login_with("alice", "pw1", app_token("T"), 0).is_ok());
}

#[test]
fn session_of_a_deleted_user_resolves_to_no_user() {
    let mut app = app_with_alice();
    let token = app.login_with("alice", "pw1", app_token("T"), 0).unwrap();
    assert!(app.send_message_at(&token, "still here", 1).is_ok());
    chat_app::database::delete_user(app.database_mut(), "alice").unwrap();
    assert_eq!(app.get_username_for_token_at(&token, 2), Some("alice".to_string()));
    assert_eq!(
        app.get_user_for_token_at(&token, 2).unwrap_err(),
        AppError::DatabaseError(DbError::UserNotFound)
    );
    assert_eq!(
        app.send_message_at(&token, "gone", 3).unwrap_err(),
        AppError::DatabaseError(DbError::UserNotFound)
    );
    assert_eq!(
        app.get_messages_at(&token, &MessageFilter::After(0), 4).unwrap().len(),
        1
    );
}

#[test]
fn renamed_user_logs_in_under_the_new_name() {
    let mut app = app_with_alice();
    chat_app::database::change_username(app.database_mut(), "alice", "alicia").unwrap();
    assert_eq!(
        app.login_with("alice", "pw1", app_token("T"), 0).unwrap_err(),
        AppError::LoginFailed
    );
    let token = app.login_with("alicia", "pw1", app_token("T"), 0).unwrap();
    assert_eq!(app.get_user_for_token_at(&token, 1).unwrap().id, 1);
}
