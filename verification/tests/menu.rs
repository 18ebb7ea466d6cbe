use chat_app::menu::{
    menu_option, parse_i32, read_option, read_string, try_menu_main, try_menu_read, user_line,
    CrudError, MenuOption, ReadOption,
};
use chat_app::models::User;
use chat_app::remote::{endpoint_url, handle_error, login_refused, register_error, Error, RequestFailure};

#[test]
fn main_menu_has_seven_choices() {
    assert_eq!(menu_option(1), Ok(MenuOption::Create));
    assert_eq!(menu_option(2), Ok(MenuOption::Read));
    assert_eq!(menu_option(3), Ok(MenuOption::Update));
    assert_eq!(menu_option(4), Ok(MenuOption::Delete));
    assert_eq!(menu_option(5), Ok(MenuOption::SetPassword));
    assert_eq!(menu_option(6), Ok(MenuOption::CheckPassword));
    assert_eq!(menu_option(7), Ok(MenuOption::Exit));
    assert_eq!(menu_option(0), Err(CrudError::InvalidMenuOption));
    assert_eq!(menu_option(8), Err(CrudError::InvalidMenuOption));
    assert_eq!(menu_option(-1), Err(CrudError::InvalidMenuOption));
}

#[test]
fn read_menu_has_two_choices() {
    assert_eq!(read_option(1), Ok(ReadOption::All));
    assert_eq!(read_option(2), Ok(ReadOption::Single));
    assert_eq!(read_option(3), Err(CrudError::InvalidMenuOption));
    assert_eq!(read_option(0), Err(CrudError::InvalidMenuOption));
}

#[test]
fn typed_line_is_read_as_a_number() {
    assert_eq!(try_menu_main("3"), Ok(MenuOption::Update));
    assert_eq!(try_menu_main("+7"), Ok(MenuOption::Exit));
    assert_eq!(try_menu_main("9"), Err(CrudError::InvalidMenuOption));
    assert_eq!(try_menu_main("three"), Err(CrudError::InvalidNumber));
    assert_eq!(try_menu_main(""), Err(CrudError::InvalidNumber));
    assert_eq!(try_menu_main("3 "), Err(CrudError::InvalidNumber));
    assert_eq!(try_menu_main("99999999999"), Err(CrudError::InvalidNumber));
    assert_eq!(try_menu_read("1"), Ok(ReadOption::All));
    assert_eq!(try_menu_read("2"), Ok(ReadOption::Single));
    assert_eq!(try_menu_read("x"), Err(CrudError::InvalidNumber));
    assert_eq!(try_menu_read("-2"), Err(CrudError::InvalidMenuOption));
}

#[test]
fn line_is_read_without_its_last_character() {
    assert_eq!(read_string("alice\n"), "alice");
    assert_eq!(read_string("alice"), "alic");
    assert_eq!(read_string("\n"), "");
    assert_eq!(read_string(""), "");
    assert_eq!(read_string("zoë\n"), "zoë");
}

#[test]
fn user_is_shown_with_its_id() {
    assert_eq!(user_line(&User { id: 12, username: "alice".to_string() }), "12: alice");
}

#[test]
fn crud_error_messages() {
    assert_eq!(CrudError::InvalidMenuOption.message(), "could not obtain a valid menu option");
    assert_eq!(CrudError::InvalidNumber.message(), "could not read a number");
}

#[test]
fn failed_request_is_classified() {
    let none = RequestFailure { is_connect: false, is_request: false, is_status: false, status: None };
    assert!(matches!(handle_error(&none, "/message"), Error::Generic));
    let connect = RequestFailure { is_connect: true, is_request: true, ..none };
    assert!(matches!(handle_error(&connect, "/message"), Error::ConnectionFailure));
    let request = RequestFailure { is_request: true, is_status: true, status: Some(401), ..none };
    assert!(matches!(handle_error(&request, "/message"), Error::InvalidRespone));
    let unauthorized = RequestFailure { is_status: true, status: Some(401), ..none };
    assert!(matches!(handle_error(&unauthorized, "/message"), Error::NotAuthorized));
    let server = RequestFailure { is_status: true, status: Some(500), ..none };
    match handle_error(&server, "/messages") {
        Error::UnexpectedStatusCode { code, endpoint } => {
            assert_eq!(code, 500);
            assert_eq!(endpoint, "/messages");
        }
        other => panic!("expected the status, got {other:?}"),
    }
    let status_without_code = RequestFailure { is_status: true, ..none };
    assert!(matches!(handle_error(&status_without_code, "/user"), Error::Generic));
    let code_without_status = RequestFailure { status: Some(500), ..none };
    assert!(matches!(handle_error(&code_without_status, "/user"), Error::Generic));
}

#[test]
fn conflict_on_registration_is_a_name_in_use() {
    let none = RequestFailure { is_connect: false, is_request: false, is_status: false, status: None };
    let conflict = RequestFailure { is_status: true, status: Some(409), ..none };
    assert!(matches!(register_error(&conflict), Error::UsernameInUse));
    let connect_conflict = RequestFailure { is_connect: true, status: Some(409), ..none };
    assert!(matches!(register_error(&connect_conflict), Error::UsernameInUse));
    let connect = RequestFailure { is_connect: true, ..none };
    assert!(matches!(register_error(&connect), Error::ConnectionFailure));
    let server = RequestFailure { is_status: true, status: Some(500), ..none };
    match register_error(&server) {
        Error::UnexpectedStatusCode { code, endpoint } => {
            assert_eq!((code, endpoint.as_str()), (500, "/register"));
        }
        other => panic!("expected the status, got {other:?}"),
    }
}

#[test]
fn login_is_refused_by_status_401_only() {
    assert!(login_refused(401));
    assert!(!login_refused(200));
    assert!(!login_refused(403));
}

#[test]
fn url_is_built_from_address_and_endpoint() {
    assert_eq!(endpoint_url("localhost:8000", "/auth/login"), "http://localhost:8000/auth/login");
    assert_eq!(endpoint_url("", ""), "http://");
}

#[test]
fn client_error_messages() {
    assert_eq!(Error::LoginFailed.message(), "Failed to login. Check your credentials or try again later.");
    assert_eq!(Error::UsernameInUse.message(), "Could not register. The username is already in use.");
    assert_eq!(Error::NotAuthorized.message(), "Authentication failed. Login again and try again.");
    assert_eq!(
        Error::UnexpectedStatusCode { code: 418, endpoint: "/user".to_string() }.message(),
        "The server returned a unexpected status 418 when acessing the /user endpoint. This is a server bug."
    );
    assert_eq!(
        Error::ConnectionFailure.message(),
        "Connection failed. Check your connection or the server address"
    );
}

#[test]
fn decimal_notation_is_read_as_the_standard_library_reads_it() {
    let cases = [
        "0", "7", "-7", "+7", "007", "-0", "+0", "-007", "2147483647", "2147483648",
        "-2147483648", "-2147483649", "00000000002147483647", "99999999999999999999",
        "-99999999999999999999", "", "-", "+", "--1", "+-1", "1a", "a1", " 1", "1 ", "1.0",
        "١٢", "12", "4294967296",
    ];
    for text in cases {
        assert_eq!(parse_i32(text), text.parse::<i32>().ok(), "reading {text:?}");
    }
    assert_eq!(parse_i32("2147483647"), Some(i32::MAX));
    assert_eq!(parse_i32("-2147483648"), Some(i32::MIN));
    assert_eq!(parse_i32("2147483648"), None);
    assert_eq!(parse_i32("-12"), Some(-12));
}

#[test]
fn every_number_reads_back_from_its_decimal_notation() {
    for n in [0, 1, -1, 9, 10, -10, 12345, -12345, i32::MAX, i32::MIN, i32::MAX - 1, i32::MIN + 1] {
        assert_eq!(parse_i32(&chat_app::text::decimal(n)), Some(n));
    }
}
