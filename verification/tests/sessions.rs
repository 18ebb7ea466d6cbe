use chat_app::errors::SessionError;
use chat_app::session::{ActiveLogin, AuthSessionManager, SESSION_TTL_MILLIS};
use chat_app::token::LoginToken;

fn session_token(text: &str) -> LoginToken {
    LoginToken(text.to_string())
}

#[test]
fn session_lasts_twenty_minutes() {
    assert_eq!(SESSION_TTL_MILLIS, 1_200_000);
    let login = ActiveLogin::new("alice", session_token("T"), 5_000);
    assert_eq!(login.username, "alice");
    assert_eq!(login.token, session_token("T"));
    assert_eq!(login.valid_until, 1_205_000);
    assert!(!login.is_expired(1_205_000));
    assert!(login.is_expired(1_205_001));
}

#[test]
fn expiry_stops_at_the_end_of_the_clock() {
    let login = ActiveLogin::new("alice", session_token("T"), i64::MAX - 10);
    assert_eq!(login.valid_until, i64::MAX);
    assert!(!login.is_expired(i64::MAX));
    let early = ActiveLogin::new("alice", session_token("T"), i64::MIN);
    assert_eq!(early.valid_until, i64::MIN + 1_200_000);
}

#[test]
fn issued_token_validates_to_its_user() {
    let mut sessions = AuthSessionManager::new();
    assert!(sessions.issue_with("alice", &session_token("T1"), 1_000));
    assert_eq!(sessions.validate(&session_token("T1"), 1_000), Ok("alice".to_string()));
    assert_eq!(sessions.validate(&session_token("T1"), 1_201_000), Ok("alice".to_string()));
    assert_eq!(sessions.len(), 1);
}

#[test]
fn unknown_token_is_not_found() {
    let mut sessions = AuthSessionManager::new();
    assert_eq!(sessions.validate(&session_token("nope"), 0), Err(SessionError::SessionNotFound));
    assert!(sessions.issue_with("alice", &session_token("T1"), 0));
    assert_eq!(sessions.validate(&session_token("T2"), 0), Err(SessionError::SessionNotFound));
    assert_eq!(sessions.validate(&session_token(""), 0), Err(SessionError::SessionNotFound));
}

#[test]
fn expired_token_fails_once_as_expired_and_then_as_not_found() {
    let mut sessions = AuthSessionManager::new();
    assert!(sessions.issue_with("alice", &session_token("T1"), 1_000));
    assert_eq!(sessions.validate(&session_token("T1"), 1_200_999), Ok("alice".to_string()));
    assert_eq!(sessions.validate(&session_token("T1"), 1_201_001), Err(SessionError::SessionExpired));
    assert_eq!(sessions.len(), 0);
    assert_eq!(sessions.validate(&session_token("T1"), 1_201_001), Err(SessionError::SessionNotFound));
    assert_eq!(sessions.validate(&session_token("T1"), 1_000), Err(SessionError::SessionNotFound));
}

#[test]
fn expiry_of_one_session_leaves_the_others() {
    let mut sessions = AuthSessionManager::new();
    assert!(sessions.issue_with("alice", &session_token("old"), 0));
    assert!(sessions.issue_with("bob", &session_token("new"), 1_000_000));
    assert_eq!(sessions.validate(&session_token("old"), 1_500_000), Err(SessionError::SessionExpired));
    assert_eq!(sessions.validate(&session_token("new"), 1_500_000), Ok("bob".to_string()));
    assert_eq!(sessions.len(), 1);
}

#[test]
fn revoke_is_idempotent() {
    let mut sessions = AuthSessionManager::new();
    assert!(sessions.issue_with("alice", &session_token("T1"), 0));
    sessions.revoke(&session_token("T1"));
    assert_eq!(sessions.validate(&session_token("T1"), 1), Err(SessionError::SessionNotFound));
    sessions.revoke(&session_token("T1"));
    sessions.revoke(&session_token("never issued"));
    assert_eq!(sessions.len(), 0);
}

#[test]
fn one_user_may_hold_several_sessions() {
    let mut sessions = AuthSessionManager::new();
    assert!(sessions.issue_with("alice", &session_token("T1"), 0));
    assert!(sessions.issue_with("alice", &session_token("T2"), 10));
    assert_eq!(sessions.validate(&session_token("T1"), 20), Ok("alice".to_string()));
    assert_eq!(sessions.validate(&session_token("T2"), 20), Ok("alice".to_string()));
    sessions.revoke(&session_token("T1"));
    assert_eq!(sessions.validate(&session_token("T2"), 30), Ok("alice".to_string()));
}

#[test]
fn live_session_is_never_overwritten() {
    let mut sessions = AuthSessionManager::new();
    assert!(sessions.issue_with("alice", &session_token("T"), 0));
    assert!(!sessions.issue_with("mallory", &session_token("T"), 100));
    assert_eq!(sessions.validate(&session_token("T"), 200), Ok("alice".to_string()));
    assert_eq!(sessions.len(), 1);
}

#[test]
fn expired_session_gives_way_to_a_new_one() {
    let mut sessions = AuthSessionManager::new();
    assert!(sessions.issue_with("alice", &session_token("T"), 0));
    assert!(sessions.issue_with("bob", &session_token("T"), 1_200_001));
    assert_eq!(sessions.validate(&session_token("T"), 1_300_000), Ok("bob".to_string()));
    assert_eq!(sessions.len(), 1);
}

#[test]
fn issued_sessions_have_distinct_tokens() {
    let mut sessions = AuthSessionManager::new();
    let mut tokens: Vec<LoginToken> = Vec::new();
    for _ in 0..50 {
        let issued = sessions.issue("alice");
        if let Some(t) = issued {
            tokens.push(t);
        }
    }
    assert!(tokens.len() >= 49);
    assert_eq!(sessions.len(), tokens.len());
    for i in 0..tokens.len() {
        for j in (i + 1)..tokens.len() {
            assert_ne!(tokens[i], tokens[j]);
        }
    }
}

#[test]
fn session_error_messages() {
    assert_eq!(SessionError::SessionExpired.message(), "The session has expired");
    assert_eq!(SessionError::SessionNotFound.message(), "No such session");
}

#[test]
fn issue_into_an_empty_table_succeeds() {
    let mut sessions = AuthSessionManager::new();
    let issued = sessions.issue("alice").unwrap();
    assert_eq!(issued.0.chars().count(), 10);
    assert_eq!(sessions.len(), 1);
    assert!(!sessions.issue_with("bob", &issued, i64::MIN));
    sessions.revoke(&issued);
    assert_eq!(sessions.len(), 0);
    assert!(sessions.issue("alice").is_some());
}

#[test]
fn lookup_that_finds_nothing_removes_every_expired_session() {
    let mut sessions = AuthSessionManager::new();
    assert!(sessions.issue_with("alice", &session_token("A"), 0));
    assert!(sessions.issue_with("bob", &session_token("B"), 100));
    assert!(sessions.issue_with("carol", &session_token("C"), 1_000_000));
    assert_eq!(sessions.len(), 3);
    assert_eq!(
        sessions.validate(&session_token("nobody"), 1_200_050),
        Err(SessionError::SessionNotFound)
    );
    assert_eq!(sessions.len(), 2);
    assert_eq!(
        sessions.validate(&session_token("A"), 1_200_050),
        Err(SessionError::SessionNotFound)
    );
    assert_eq!(sessions.validate(&session_token("B"), 1_200_050), Ok("bob".to_string()));
    assert_eq!(
        sessions.validate(&session_token("B"), 1_200_101),
        Err(SessionError::SessionExpired)
    );
    assert_eq!(sessions.len(), 1);
    assert_eq!(sessions.validate(&session_token("C"), 1_200_101), Ok("carol".to_string()));
}

#[test]
fn lookup_that_finds_a_live_session_removes_nothing() {
    let mut sessions = AuthSessionManager::new();
    assert!(sessions.issue_with("alice", &session_token("A"), 0));
    assert!(sessions.issue_with("carol", &session_token("C"), 1_000_000));
    assert_eq!(sessions.validate(&session_token("C"), 1_500_000), Ok("carol".to_string()));
    assert_eq!(sessions.len(), 2);
    assert_eq!(
        sessions.validate(&session_token("A"), 1_500_000),
        Err(SessionError::SessionExpired)
    );
    assert_eq!(sessions.len(), 1);
}

#[test]
fn lookup_on_the_last_instant_keeps_the_session() {
    let mut sessions = AuthSessionManager::new();
    assert!(sessions.issue_with("alice", &session_token("A"), 0));
    assert_eq!(
        sessions.validate(&session_token("nobody"), 1_200_000),
        Err(SessionError::SessionNotFound)
    );
    assert_eq!(sessions.len(), 1);
    assert_eq!(sessions.validate(&session_token("A"), 1_200_000), Ok("alice".to_string()));
}

#[test]
fn table_stays_in_step_through_issue_revoke_and_expiry() {
    let mut sessions = AuthSessionManager::new();
    for round in 0..3 {
        let start = round * 2_000_000;
        assert!(sessions.issue_with("alice", &session_token("A"), start));
        assert!(sessions.issue_with("bob", &session_token("B"), start));
        assert!(sessions.issue_with("carol", &session_token("C"), start));
        sessions.revoke(&session_token("B"));
        sessions.revoke(&session_token("B"));
        assert_eq!(sessions.len(), 2);
        assert!(sessions.issue_with("bob", &session_token("B"), start + 1));
        assert_eq!(sessions.len(), 3);
        assert_eq!(
            sessions.validate(&session_token("x"), start + 1_500_000),
            Err(SessionError::SessionNotFound)
        );
        assert_eq!(sessions.len(), 0);
    }
}
