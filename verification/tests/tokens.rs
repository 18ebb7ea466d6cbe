use chat_app::auth::{check_hash, generate_hash, hash_is_verifiable, verify_password};
use chat_app::token::{LoginToken, TOKEN_ENTROPY_BYTES};

#[test]
fn token_from_entropy_is_unpadded_base64() {
    assert_eq!(LoginToken::from_entropy(&vec![0, 0, 0, 0, 0, 0, 0]).0, "AAAAAAAAAA");
    assert_eq!(LoginToken::from_entropy(&vec![1, 2, 3, 4, 5, 6, 7]).0, "AQIDBAUGBw");
    assert_eq!(LoginToken::from_entropy(&vec![255; 7]).0, "/////////w");
    assert_eq!(LoginToken::from_entropy(&b"foobar!".to_vec()).0, "Zm9vYmFyIQ");
}

#[test]
fn token_from_short_entropy_has_no_padding() {
    assert_eq!(LoginToken::from_entropy(&vec![]).0, "");
    assert_eq!(LoginToken::from_entropy(&b"f".to_vec()).0, "Zg");
    assert_eq!(LoginToken::from_entropy(&b"fo".to_vec()).0, "Zm8");
    assert_eq!(LoginToken::from_entropy(&b"foo".to_vec()).0, "Zm9v");
}

#[test]
fn generated_token_has_ten_characters() {
    assert_eq!(TOKEN_ENTROPY_BYTES, 7);
    for _ in 0..20 {
        let token = LoginToken::generate();
        assert_eq!(token.0.chars().count(), 10);
        assert!(token.0.chars().all(|c| c.is_ascii_alphanumeric() || c == '+' || c == '/'));
    }
}

#[test]
fn generated_tokens_vary() {
    let first = LoginToken::generate();
    let mut all_same = true;
    for _ in 0..8 {
        if LoginToken::generate() != first {
            all_same = false;
        }
    }
    assert!(!all_same);
}

#[test]
fn tokens_compare_by_text() {
    let a = LoginToken("abc".to_string());
    let b = LoginToken("abc".to_string());
    let c = LoginToken("abd".to_string());
    assert!(a == b);
    assert!(a != c);
    assert_eq!(a.clone(), a);
}

#[test]
fn generated_hash_matches_its_password_only() {
    let hash = generate_hash("pw1");
    assert!(hash.starts_with("$argon2id$"));
    assert_ne!(hash, "pw1");
    assert!(verify_password("pw1", &hash));
    assert!(!verify_password("wrong", &hash));
    assert!(!verify_password("", &hash));
}

#[test]
fn hashes_of_one_password_differ_by_salt() {
    let first = generate_hash("hunter42");
    let second = generate_hash("hunter42");
    assert_ne!(first, second);
    assert!(verify_password("hunter42", &first));
    assert!(verify_password("hunter42", &second));
}

#[test]
fn check_hash_tells_a_damaged_hash_from_a_wrong_password() {
    let hash = generate_hash("secret");
    assert_eq!(check_hash("secret", &hash), Some(true));
    assert_eq!(check_hash("other", &hash), Some(false));
    assert_eq!(check_hash("secret", "not a hash"), None);
    assert_eq!(check_hash("secret", ""), None);
}

#[test]
fn check_hash_reads_a_known_hash() {
    let known =
        "$argon2id$v=19$m=65536,t=2,p=1$c29tZXNhbHQ$CTFhFdXPJO1aFaMaO6Mm5c8y7cJHAph8ArZWb2GRPPc";
    assert_eq!(check_hash("password", known), Some(true));
    assert_eq!(check_hash("sassword", known), Some(false));
    assert!(verify_password("password", known));
}

#[test]
fn hash_that_asks_for_too_many_lanes_is_refused() {
    let greedy =
        "$argon2id$v=19$m=65536,t=2,p=4294967295$c29tZXNhbHQ$CTFhFdXPJO1aFaMaO6Mm5c8y7cJHAph8ArZWb2GRPPc";
    assert!(!hash_is_verifiable(greedy));
    assert_eq!(check_hash("password", greedy), None);
    let nine_digits =
        "$argon2id$v=19$m=65536,t=2,p=536870912$c29tZXNhbHQ$CTFhFdXPJO1aFaMaO6Mm5c8y7cJHAph8ArZWb2GRPPc";
    assert_eq!(check_hash("password", nine_digits), None);
    let twice =
        "$argon2id$v=19$m=65536,p=1,t=2,p=4294967295$c29tZXNhbHQ$CTFhFdXPJO1aFaMaO6Mm5c8y7cJHAph8ArZWb2GRPPc";
    assert_eq!(check_hash("password", twice), None);
    let eight_digits =
        "$argon2id$v=19$m=65536,t=2,p=99999999$c29tZXNhbHQ$CTFhFdXPJO1aFaMaO6Mm5c8y7cJHAph8ArZWb2GRPPc";
    assert!(hash_is_verifiable(eight_digits));
    assert_eq!(check_hash("password", eight_digits), Some(false));
}

#[test]
fn hash_that_asks_for_too_much_memory_is_refused() {
    let greedy =
        "$argon2id$v=19$m=4294967295,t=2,p=1$c29tZXNhbHQ$CTFhFdXPJO1aFaMaO6Mm5c8y7cJHAph8ArZWb2GRPPc";
    assert!(!hash_is_verifiable(greedy));
    assert_eq!(check_hash("password", greedy), None);
    let seven_digits =
        "$argon2id$v=19$m=1048576,t=2,p=1$c29tZXNhbHQ$CTFhFdXPJO1aFaMaO6Mm5c8y7cJHAph8ArZWb2GRPPc";
    assert_eq!(check_hash("password", seven_digits), None);
    let six_digits =
        "$argon2id$v=19$m=262144,t=2,p=1$c29tZXNhbHQ$eP4eyR+zqlZX1y5xCFTkw9m5GYx0L5YWwvCFvtlbLow";
    assert_eq!(check_hash("password", six_digits), Some(true));
}

#[test]
fn hash_of_the_library_and_hashes_of_other_kinds_can_be_verified_against() {
    assert!(hash_is_verifiable(&generate_hash("pw1")));
    assert!(hash_is_verifiable("$argon2i$v=19$m=65536,t=1,p=1$c29tZXNhbHQAAAAAAAAAAA$+r0d29hqEB0yasKr55ZgICsQGSkl0v0kgwhd+U3wyRo"));
    assert!(hash_is_verifiable("$pbkdf2-sha256$i=1000$c29tZXNhbHQ$CTFhFdXPJO1aFaMaO6Mm5c8y7cJHAph8ArZWb2GRPPc"));
    assert_eq!(
        check_hash("password", "$pbkdf2-sha256$i=1000$c29tZXNhbHQ$CTFhFdXPJO1aFaMaO6Mm5c8y7cJHAph8ArZWb2GRPPc"),
        Some(false)
    );
    assert!(!hash_is_verifiable("argon2id"));
}

#[test]
fn text_of_bytes_has_the_stated_length() {
    for count in 0..20usize {
        let text = LoginToken::from_entropy(&vec![7u8; count]).0;
        let expected = (count / 3) * 4 + [0, 2, 3][count % 3];
        assert_eq!(text.chars().count(), expected);
    }
}
