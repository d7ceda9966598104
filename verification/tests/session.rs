use logo_loader::otp::{
    AuthenticationError, AuthenticationService, LoginOutcome, LoginResult, OtpOutcome, Permission,
    User, STATUS_UNREACHABLE, STATUS_UNREADABLE, STATUS_WRONG_CODE,
};

fn user(name: &str) -> User {
    User { name: name.to_string(), permissions: vec![Permission::User, Permission::Admin], bank_id: 3 }
}

fn answer(otp_required: bool, place: Option<&str>) -> LoginResult {
    LoginResult { otp_required, otp_url: place.map(|p| p.to_string()) }
}

fn error(status_code: u16, words: &str) -> AuthenticationError {
    AuthenticationError::new(status_code, words.to_string())
}

fn same(a: &AuthenticationError, status_code: u16, words: &str) -> bool {
    a.status_code == status_code && a.message() == words
}

#[test]
fn greeting_is_cut_at_a_hundred_bytes() {
    assert_eq!(logo_loader::test("abc"), "Тестовый вызов библиотеки abc");
    assert_eq!(logo_loader::test(""), "Тестовый вызов библиотеки ");
    let long = "x".repeat(80);
    let cut = logo_loader::test(&long);
    assert_eq!(cut.len(), 100);
    assert_eq!(cut, format!("Тестовый вызов библиотеки {}", "x".repeat(51)));
    let fits = "y".repeat(51);
    assert_eq!(logo_loader::test(&fits).len(), 100);
    let wide = format!("z{}", "я".repeat(40));
    assert_eq!(logo_loader::test(&wide), format!("Тестовый вызов библиотеки z{}", "я".repeat(25)));
}

#[test]
fn new_session_knows_nothing() {
    let service = AuthenticationService::new("https://host/master");
    assert_eq!(service.user_info_url, "https://host/master/service/user/info");
    assert_eq!(service.login_url, "https://host/master/service/login");
    assert_eq!(service.otp_login_url, "https://host/master/service/otp");
    assert_eq!(service.user_name(), "");
    assert!(!service.is_logged());
    assert_eq!(service.is_otp_required(), None);
    assert_eq!(service.get_otp_url(), "");
    assert_eq!(service.error_message(), "");
}

#[test]
fn requests_are_percent_encoded() {
    let service = AuthenticationService::new("http://h");
    assert_eq!(
        service.login_request("ivan petrov", "p&ss=w/rd"),
        "http://h/service/login?username=ivan%20petrov&password=p%26ss%3Dw%2Frd"
    );
    assert_eq!(service.login_request("a-b_c.d~e", "1"), "http://h/service/login?username=a-b_c.d~e&password=1");
    assert_eq!(service.otp_request("12 34"), "http://h/service/otp?code=12%2034");
    assert_eq!(service.otp_request("я"), "http://h/service/otp?code=%D1%8F");
}

#[test]
fn accepted_sign_in_without_code_fetches_the_user() {
    let mut service = AuthenticationService::new("http://h");
    service.login_failed(error(403, "Forbidden"));
    assert_eq!(service.error_message(), "Неверный логин или пароль");
    let done = service.login(LoginOutcome::Accepted(answer(false, None)));
    assert!(matches!(done, Ok(true)));
    assert_eq!(service.error_message(), "");
    assert_eq!(service.is_otp_required(), None);
    service.user_info_received(Some(user("Ivan")));
    assert!(service.is_logged());
    assert_eq!(service.user_name(), "Ivan");
    service.user_info_received(None);
    assert!(!service.is_logged());
}

#[test]
fn accepted_sign_in_with_code_waits_for_it() {
    let mut service = AuthenticationService::new("http://h");
    let done = service.login(LoginOutcome::Accepted(answer(true, Some("otp://here"))));
    assert!(matches!(done, Ok(false)));
    assert_eq!(service.is_otp_required(), Some(true));
    assert_eq!(service.get_otp_url(), "otp://here");
    assert!(service.login_otp(OtpOutcome::Accepted).is_ok());
    assert_eq!(service.is_otp_required(), None);
    assert_eq!(service.get_otp_url(), "");
    assert_eq!(service.error_message(), "");
    assert!(!service.login_success(answer(true, None)));
    assert_eq!(service.get_otp_url(), "");
    assert_eq!(service.is_otp_required(), Some(true));
}

#[test]
fn failed_sign_in_is_kept_and_returned() {
    let mut service = AuthenticationService::new("http://h");
    service.user_info_received(Some(user("Ivan")));
    let done = service.login(LoginOutcome::Refused(403, "403 Forbidden".to_string()));
    assert!(same(&done.unwrap_err(), 403, "403 Forbidden"));
    assert!(!service.is_logged());
    assert_eq!(service.error_message(), "Неверный логин или пароль");
    let done = service.login(LoginOutcome::Unreachable("timed out".to_string()));
    assert!(same(&done.unwrap_err(), STATUS_UNREACHABLE, "timed out"));
    assert_eq!(service.error_message(), "Сервер недоступен");
    let done = service.login(LoginOutcome::Unreadable("bad json".to_string()));
    assert!(same(&done.unwrap_err(), STATUS_UNREADABLE, "bad json"));
    assert_eq!(service.error_message(), "Неизвестная ошибка");
    assert!(same(service.last_error.as_ref().unwrap(), 500, "bad json"));
    assert_eq!((STATUS_UNREADABLE, STATUS_UNREACHABLE, STATUS_WRONG_CODE), (500, 504, 666));
}

#[test]
fn refused_code_is_kept_as_a_wrong_code() {
    let mut service = AuthenticationService::new("http://h");
    service.login_success(answer(true, Some("u")));
    service.user_info_received(Some(user("Ivan")));
    let done = service.login_otp(OtpOutcome::Refused(401, "401 Unauthorized".to_string()));
    assert!(same(&done.unwrap_err(), 401, "401 Unauthorized"));
    assert!(same(service.last_error.as_ref().unwrap(), 666, "401 Unauthorized"));
    assert_eq!(service.error_message(), "Неверный код");
    assert!(!service.is_logged());
    assert_eq!(service.is_otp_required(), None);
    let done = service.login_otp(OtpOutcome::Unreachable("down".to_string()));
    assert!(same(&done.unwrap_err(), 504, "down"));
    assert!(same(service.last_error.as_ref().unwrap(), 666, "down"));
}

#[test]
fn cancel_and_logout_forget() {
    let mut service = AuthenticationService::new("http://h");
    service.login_success(answer(true, Some("u")));
    service.user_info_received(Some(user("Ivan")));
    service.login_failed(error(504, "x"));
    service.user_info_received(Some(user("Ivan")));
    service.logout();
    assert!(!service.is_logged());
    assert_eq!(service.error_message(), "");
    assert_eq!(service.is_otp_required(), Some(true));
    service.user_info_received(Some(user("Ivan")));
    service.otp_login_failed(error(400, "x"));
    service.otp_login_cancel();
    assert!(!service.is_logged());
    assert_eq!(service.error_message(), "");
    assert_eq!(service.is_otp_required(), None);
    assert_eq!(service.login_url, "http://h/service/login");
}

#[test]
fn failure_copies_are_equal() {
    let first = error(418, "teapot");
    let second = first.duplicate();
    assert!(same(&second, 418, "teapot"));
    assert_eq!(first.message(), "teapot");
}
