use chat_app::auth::generate_hash;
use chat_app::database::{
    check_password, create_message_at, create_user, get_all_users, get_authentication,
    get_messages, get_user_by_name, restore_authentication, restore_message, restore_user,
    set_password, Database, MessageFilter,
};
use chat_app::errors::DbError;
use chat_app::models::{Authentication, Message, User};

fn stored_user(id: i32, name: &str) -> User {
    User { id, username: name.to_string() }
}

fn stored_message(id: i32, date: i64, text: &str) -> Message {
    Message { id, date, messagetext: text.to_string(), userid: 1 }
}

#[test]
fn restored_users_keep_their_ids() {
    let mut db = Database::new();
    assert_eq!(restore_user(&mut db, stored_user(5, "eve")), Ok(()));
    assert_eq!(restore_user(&mut db, stored_user(2, "bob")), Ok(()));
    assert_eq!(get_user_by_name(&db, "eve").unwrap().id, 5);
    assert_eq!(get_user_by_name(&db, "bob").unwrap().id, 2);
    create_user(&mut db, "new").unwrap();
    assert_eq!(get_user_by_name(&db, "new").unwrap().id, 6);
    let names: Vec<String> = get_all_users(&db).unwrap().into_iter().map(|u| u.username).collect();
    assert_eq!(names, vec!["eve", "bob", "new"]);
}

#[test]
fn restoring_a_second_user_of_one_name_is_a_collision() {
    let mut db = Database::new();
    restore_user(&mut db, stored_user(1, "alice")).unwrap();
    assert_eq!(
        restore_user(&mut db, stored_user(2, "alice")),
        Err(DbError::UsernameCollisionDetected)
    );
    assert_eq!(get_all_users(&db).unwrap().len(), 1);
}

#[test]
fn restoring_a_user_with_a_bad_id_fails() {
    let mut db = Database::new();
    restore_user(&mut db, stored_user(1, "alice")).unwrap();
    assert_eq!(restore_user(&mut db, stored_user(1, "bob")), Err(DbError::GenericError));
    assert_eq!(restore_user(&mut db, stored_user(0, "bob")), Err(DbError::GenericError));
    assert_eq!(restore_user(&mut db, stored_user(-3, "bob")), Err(DbError::GenericError));
    assert_eq!(restore_user(&mut db, stored_user(i32::MAX, "bob")), Err(DbError::GenericError));
    assert_eq!(restore_user(&mut db, stored_user(i32::MAX - 1, "bob")), Ok(()));
    assert_eq!(create_user(&mut db, "carol"), Err(DbError::UserCreationFailed));
}

#[test]
fn restored_credential_is_checked_like_a_new_one() {
    let mut db = Database::new();
    restore_user(&mut db, stored_user(3, "alice")).unwrap();
    let credential =
        Authentication { id: 9, userid: 3, hashedpassword: generate_hash("pw1") };
    assert_eq!(restore_authentication(&mut db, credential.clone()), Ok(()));
    assert_eq!(check_password(&db, "alice", "pw1"), Ok(true));
    assert_eq!(check_password(&db, "alice", "pw2"), Ok(false));
    let stored = get_authentication(&db, 3).unwrap();
    assert_eq!((stored.id, stored.userid), (9, 3));
    assert_eq!(stored.hashedpassword, credential.hashedpassword);
    assert_eq!(get_authentication(&db, 4).unwrap_err(), DbError::NoPasswordSet);
}

#[test]
fn restoring_a_damaged_hash_is_refused() {
    let mut db = Database::new();
    restore_user(&mut db, stored_user(1, "alice")).unwrap();
    let damaged =
        Authentication { id: 1, userid: 1, hashedpassword: "plain text".to_string() };
    assert_eq!(restore_authentication(&mut db, damaged), Err(DbError::MalformedPasswordHash));
    assert_eq!(check_password(&db, "alice", "plain text"), Err(DbError::NoPasswordSet));
}

#[test]
fn restoring_a_second_credential_for_a_user_fails() {
    let mut db = Database::new();
    restore_user(&mut db, stored_user(1, "alice")).unwrap();
    let hash = generate_hash("pw1");
    let first = Authentication { id: 1, userid: 1, hashedpassword: hash.clone() };
    let same_user = Authentication { id: 2, userid: 1, hashedpassword: hash.clone() };
    let same_id = Authentication { id: 1, userid: 2, hashedpassword: hash.clone() };
    let no_id = Authentication { id: 0, userid: 2, hashedpassword: hash };
    assert_eq!(restore_authentication(&mut db, first), Ok(()));
    assert_eq!(restore_authentication(&mut db, same_user), Err(DbError::GenericError));
    assert_eq!(restore_authentication(&mut db, same_id), Err(DbError::GenericError));
    assert_eq!(restore_authentication(&mut db, no_id), Err(DbError::GenericError));
}

#[test]
fn password_set_after_a_restore_gets_the_next_id() {
    let mut db = Database::new();
    restore_user(&mut db, stored_user(1, "alice")).unwrap();
    restore_user(&mut db, stored_user(2, "bob")).unwrap();
    let restored = Authentication { id: 4, userid: 1, hashedpassword: generate_hash("a") };
    restore_authentication(&mut db, restored).unwrap();
    set_password(&mut db, "bob", "b").unwrap();
    assert_eq!(get_authentication(&db, 2).unwrap().id, 5);
    set_password(&mut db, "alice", "a2").unwrap();
    assert_eq!(get_authentication(&db, 1).unwrap().id, 4);
}

#[test]
fn restored_messages_are_put_in_the_order_of_their_dates() {
    let mut db = Database::new();
    assert_eq!(restore_message(&mut db, stored_message(1, 30, "c")), Ok(()));
    assert_eq!(restore_message(&mut db, stored_message(2, 10, "a")), Ok(()));
    assert_eq!(restore_message(&mut db, stored_message(7, 20, "b")), Ok(()));
    assert_eq!(restore_message(&mut db, stored_message(7, 40, "again")), Err(DbError::GenericError));
    assert_eq!(restore_message(&mut db, stored_message(0, 40, "zero")), Err(DbError::GenericError));
    let read = get_messages(&db, &MessageFilter::After(0)).unwrap();
    let texts: Vec<&str> = read.iter().map(|m| m.messagetext.as_str()).collect();
    assert_eq!(texts, vec!["a", "b", "c"]);
    let next = create_message_at(&mut db, "d", 1, 40).unwrap();
    assert_eq!(next.id, 8);
}

#[test]
fn store_without_a_free_message_id_stores_no_more() {
    let mut db = Database::new();
    restore_message(&mut db, stored_message(i32::MAX - 1, 10, "last")).unwrap();
    assert_eq!(create_message_at(&mut db, "one too many", 1, 20).unwrap_err(), DbError::GenericError);
    assert_eq!(get_messages(&db, &MessageFilter::After(0)).unwrap().len(), 1);
}

#[test]
fn store_without_a_free_credential_id_sets_no_new_password() {
    let mut db = Database::new();
    restore_user(&mut db, stored_user(1, "alice")).unwrap();
    restore_user(&mut db, stored_user(2, "bob")).unwrap();
    let last = Authentication { id: i32::MAX - 1, userid: 1, hashedpassword: generate_hash("a") };
    restore_authentication(&mut db, last).unwrap();
    assert_eq!(set_password(&mut db, "bob", "b"), Err(DbError::GenericError));
    assert_eq!(check_password(&db, "bob", "b"), Err(DbError::NoPasswordSet));
    assert_eq!(set_password(&mut db, "alice", "a2"), Ok(()));
    assert_eq!(check_password(&db, "alice", "a2"), Ok(true));
}

#[test]
fn restoring_a_hash_that_asks_for_too_much_is_refused() {
    let mut db = Database::new();
    restore_user(&mut db, stored_user(1, "alice")).unwrap();
    let greedy = Authentication {
        id: 1,
        userid: 1,
        hashedpassword:
            "$argon2id$v=19$m=65536,t=2,p=4294967295$c29tZXNhbHQ$CTFhFdXPJO1aFaMaO6Mm5c8y7cJHAph8ArZWb2GRPPc"
                .to_string(),
    };
    assert_eq!(restore_authentication(&mut db, greedy), Err(DbError::MalformedPasswordHash));
    assert_eq!(check_password(&db, "alice", "password"), Err(DbError::NoPasswordSet));
}
