use identity_core::config::{DEFAULT_JWT_SECRET, DEFAULT_PORT};
use identity_core::policy::HEALTH_PATH;
use identity_core::store::UserService;
use identity_core::text::{starts_with, strip_prefix, text_eq};
use identity_core::{
    auth_middleware, auth_middleware_at, create_user, default_limit, delete_user, get_user,
    hash_password, list_users, login, parse_port, register, update_user, verify_password_hash,
    AppError, AuthService, Config, CreateUserRequest, ListUsersQuery, LoginRequest,
    UpdateUserRequest, TOKEN_LIFETIME_SECS,
};

const NOW: i64 = 1_700_000_000;

fn auth() -> AuthService {
    AuthService::new("test-secret".to_string())
}

fn request(email: &str, username: &str, password: &str) -> CreateUserRequest {
    CreateUserRequest {
        email: email.to_string(),
        username: username.to_string(),
        password: password.to_string(),
    }
}

fn id_text(id: u128) -> String {
    uuid::Uuid::from_u128(id).to_string()
}

#[test]
fn error_kinds_map_to_fixed_statuses() {
    assert_eq!(AppError::Validation.status_code(), 400);
    assert_eq!(AppError::Unauthorized.status_code(), 401);
    assert_eq!(AppError::NotFound.status_code(), 404);
    assert_eq!(AppError::Conflict.status_code(), 409);
    assert_eq!(AppError::Database.status_code(), 500);
    assert_eq!(AppError::Crypto.status_code(), 500);
    assert_eq!(AppError::Internal.status_code(), 500);
    assert_eq!(AppError::Unauthorized.error_tag(), "Unauthorized");
}

#[test]
fn listing_defaults_are_ten_and_zero() {
    assert_eq!(default_limit(), 10);
    let q = ListUsersQuery::new(None, None);
    assert_eq!(q.limit, 10);
    assert_eq!(q.offset, 0);
    let q = ListUsersQuery::new(Some(3), Some(7));
    assert_eq!((q.limit, q.offset), (3, 7));
}

#[test]
fn text_helpers_compare_by_characters() {
    assert!(starts_with("Bearer abc", "Bearer "));
    assert!(!starts_with("Bear", "Bearer "));
    assert_eq!(strip_prefix("Bearer abc", "Bearer "), Some("abc"));
    assert_eq!(strip_prefix("bearer abc", "Bearer "), None);
    assert!(text_eq("é/x", "é/x"));
    assert!(!text_eq("a", "ab"));
}

#[test]
fn port_parsing() {
    assert_eq!(parse_port("3000"), Some(3000));
    assert_eq!(parse_port("0"), Some(0));
    assert_eq!(parse_port("65535"), Some(65535));
    assert_eq!(parse_port("65536"), None);
    assert_eq!(parse_port("999999999999"), None);
    assert_eq!(parse_port(""), None);
    assert_eq!(parse_port("30a0"), None);
}

#[test]
fn config_takes_defaults_and_rejects_bad_port() {
    let c = Config::from_vars(None, None, None).unwrap();
    assert_eq!(c.port, DEFAULT_PORT);
    assert_eq!(c.jwt_secret, DEFAULT_JWT_SECRET);
    let c = Config::from_vars(Some("db".to_string()), Some("8080".to_string()), Some("k".to_string()))
        .unwrap();
    assert_eq!((c.database_url.as_str(), c.port, c.jwt_secret.as_str()), ("db", 8080, "k"));
    assert_eq!(
        Config::from_vars(None, Some("http".to_string()), None).unwrap_err(),
        AppError::Validation
    );
}

#[test]
fn hashed_password_verifies_and_wrong_one_does_not() {
    let h = hash_password("secret123").unwrap();
    assert_ne!(h, "secret123");
    assert_eq!(verify_password_hash("secret123", &h), Ok(true));
    assert_eq!(verify_password_hash("secret124", &h), Ok(false));
}

#[test]
fn malformed_hash_is_a_crypto_error() {
    assert_eq!(verify_password_hash("secret123", "not-a-hash"), Err(AppError::Crypto));
}

#[test]
fn issued_token_verifies_with_its_subject() {
    let a = auth();
    let id: u128 = 0x0123_4567_89ab_cdef_0123_4567_89ab_cdef;
    let t = a.issue_token_at(id, NOW).unwrap();
    assert_ne!(t, id_text(id));
    let c = a.verify_token_at(&t, NOW).unwrap();
    assert_eq!(c.sub, id_text(id));
    assert_eq!(c.sub, "01234567-89ab-cdef-0123-456789abcdef");
    assert_eq!(c.iat, NOW as u64);
    assert_eq!(c.exp, NOW as u64 + 86400);
    assert_eq!(TOKEN_LIFETIME_SECS, 86400);
}

#[test]
fn token_is_valid_up_to_its_expiry_and_not_after() {
    let a = auth();
    let t = a.issue_token_at(7, NOW).unwrap();
    let exp = NOW + 86400;
    assert!(a.verify_token_at(&t, exp).is_ok());
    assert_eq!(a.verify_token_at(&t, exp + 1).unwrap_err(), AppError::Unauthorized);
}

#[test]
fn token_with_past_expiry_is_rejected_now() {
    let a = auth();
    let t = a.issue_token_at(7, 1_000).unwrap();
    assert_eq!(a.verify_token(&t).unwrap_err(), AppError::Unauthorized);
}

#[test]
fn token_signed_with_another_secret_is_rejected() {
    let t = AuthService::new("other".to_string()).issue_token_at(7, NOW).unwrap();
    assert_eq!(auth().verify_token_at(&t, NOW).unwrap_err(), AppError::Unauthorized);
    assert_eq!(auth().verify_token_at("a.b.c", NOW).unwrap_err(), AppError::Unauthorized);
    let mut bad = auth().issue_token_at(7, NOW).unwrap();
    bad.push('x');
    assert_eq!(auth().verify_token_at(&bad, NOW).unwrap_err(), AppError::Unauthorized);
}

#[test]
fn negative_issue_time_is_internal() {
    assert_eq!(auth().issue_token_at(7, -1).unwrap_err(), AppError::Internal);
}

#[test]
fn fresh_token_verifies_now() {
    let a = auth();
    let t = a.generate_token(42).unwrap();
    assert_eq!(a.verify_token(&t).unwrap().sub, id_text(42));
}

#[test]
fn public_paths_bypass_the_gate() {
    let a = auth();
    assert!(matches!(auth_middleware_at(&a, HEALTH_PATH, None, NOW), Ok(None)));
    assert!(matches!(auth_middleware_at(&a, "/api/auth/login", None, NOW), Ok(None)));
    assert!(matches!(auth_middleware_at(&a, "/api/auth/register", Some("junk"), NOW), Ok(None)));
}

#[test]
fn protected_route_without_header_is_unauthorized() {
    let a = auth();
    assert_eq!(auth_middleware_at(&a, "/api/users", None, NOW).unwrap_err(), AppError::Unauthorized);
    assert_eq!(auth_middleware(&a, "/api/auth", None).unwrap_err(), AppError::Unauthorized);
    assert_eq!(auth_middleware(&a, "/healthz", None).unwrap_err(), AppError::Unauthorized);
}

#[test]
fn protected_route_needs_the_bearer_scheme() {
    let a = auth();
    let t = a.issue_token_at(9, NOW).unwrap();
    let basic = format!("Token {}", t);
    assert_eq!(
        auth_middleware_at(&a, "/api/users", Some(&basic), NOW).unwrap_err(),
        AppError::Unauthorized
    );
    let no_space = format!("Bearer{}", t);
    assert_eq!(
        auth_middleware_at(&a, "/api/users", Some(&no_space), NOW).unwrap_err(),
        AppError::Unauthorized
    );
    let good = format!("Bearer {}", t);
    let claims = auth_middleware_at(&a, "/api/users/1", Some(&good), NOW).unwrap().unwrap();
    assert_eq!(claims.sub, id_text(9));
    assert_eq!(
        auth_middleware_at(&a, "/api/users", Some("Bearer nope"), NOW).unwrap_err(),
        AppError::Unauthorized
    );
}

#[test]
fn table_lists_newest_first_in_pages() {
    let mut users = UserService::new();
    for (id, at) in [(1u128, 100i64), (2, 300), (3, 200), (4, 300)] {
        let email = format!("u{}@x.com", id);
        users.insert_user(id, email, "n".to_string(), "h".to_string(), at).unwrap();
    }
    let ids = |v: Vec<identity_core::User>| v.iter().map(|u| u.id).collect::<Vec<_>>();
    assert_eq!(ids(users.list_users(10, 0).unwrap()), vec![4, 2, 3, 1]);
    assert_eq!(ids(users.list_users(2, 1).unwrap()), vec![2, 3]);
    assert_eq!(ids(users.list_users(2, 3).unwrap()), vec![1]);
    assert_eq!(ids(users.list_users(5, 9).unwrap()), Vec::<u128>::new());
    assert_eq!(ids(users.list_users(0, 0).unwrap()), Vec::<u128>::new());
    assert_eq!(users.list_users(-1, 0).unwrap_err(), AppError::Database);
    assert_eq!(users.list_users(1, -1).unwrap_err(), AppError::Database);
}

#[test]
fn second_row_with_one_identifier_is_refused() {
    let mut users = UserService::new();
    users.insert_user(1, "a@x.com".to_string(), "a".to_string(), "h".to_string(), 5).unwrap();
    let e = users.insert_user(1, "b@x.com".to_string(), "b".to_string(), "h".to_string(), 6);
    assert_eq!(e.unwrap_err(), AppError::Database);
    assert!(users.get_user_by_email("b@x.com").is_none());
}

#[test]
fn update_without_fields_only_refreshes_timestamp() {
    let mut users = UserService::new();
    users.insert_user(1, "a@x.com".to_string(), "a".to_string(), "h".to_string(), 5).unwrap();
    let empty = UpdateUserRequest { email: None, username: None };
    let u = users.update_user_at(1, empty, 50).unwrap();
    assert_eq!((u.email.as_str(), u.username.as_str()), ("a@x.com", "a"));
    assert_eq!((u.created_at, u.updated_at), (5, 50));
    let stored = users.get_user_by_id(1).unwrap();
    assert_eq!((stored.email.as_str(), stored.updated_at), ("a@x.com", 50));
}

#[test]
fn update_coalesces_supplied_fields() {
    let mut users = UserService::new();
    users.insert_user(1, "a@x.com".to_string(), "a".to_string(), "h".to_string(), 5).unwrap();
    let req = UpdateUserRequest { email: None, username: Some("b".to_string()) };
    let u = users.update_user_at(1, req, 9).unwrap();
    assert_eq!((u.email.as_str(), u.username.as_str(), u.updated_at), ("a@x.com", "b", 9));
    let req = UpdateUserRequest { email: Some("c@x.com".to_string()), username: None };
    assert!(users.update_user_at(2, req, 9).is_none());
}

#[test]
fn delete_reports_whether_a_row_went() {
    let mut users = UserService::new();
    users.insert_user(1, "a@x.com".to_string(), "a".to_string(), "h".to_string(), 5).unwrap();
    assert!(!users.delete_user(2));
    assert!(users.delete_user(1));
    assert!(users.get_user_by_id(1).is_none());
    assert!(!users.delete_user(1));
}

#[test]
fn unknown_email_and_wrong_password_are_both_absent() {
    let mut users = UserService::new();
    let h = hash_password("right-pass").unwrap();
    users.insert_user(1, "a@x.com".to_string(), "a".to_string(), h, 5).unwrap();
    let wrong = users.verify_password("a@x.com", "wrong-pass").unwrap();
    let unknown = users.verify_password("b@x.com", "right-pass").unwrap();
    assert!(wrong.is_none());
    assert!(unknown.is_none());
}

#[test]
fn right_password_returns_the_user() {
    let mut users = UserService::new();
    let h = hash_password("right-pass").unwrap();
    users.insert_user(1, "a@x.com".to_string(), "a".to_string(), h, 5).unwrap();
    let u = users.verify_password("a@x.com", "right-pass").unwrap().unwrap();
    assert_eq!(u.id, 1);
}

#[test]
fn stored_malformed_hash_is_a_crypto_error() {
    let mut users = UserService::new();
    users.insert_user(1, "a@x.com".to_string(), "a".to_string(), "h".to_string(), 5).unwrap();
    assert_eq!(users.verify_password("a@x.com", "pw").unwrap_err(), AppError::Crypto);
    let lr = LoginRequest { email: "a@x.com".to_string(), password: "pw".to_string() };
    assert_eq!(login(&auth(), &users, lr).unwrap_err(), AppError::Crypto);
}

#[test]
fn login_failures_are_uniform() {
    let a = auth();
    let mut users = UserService::new();
    let h = hash_password("right-pass").unwrap();
    users.insert_user(1, "a@x.com".to_string(), "a".to_string(), h, 5).unwrap();
    let wrong = LoginRequest { email: "a@x.com".to_string(), password: "wrong-pass".to_string() };
    let unknown = LoginRequest { email: "z@x.com".to_string(), password: "right-pass".to_string() };
    let e1 = login(&a, &users, wrong).unwrap_err();
    let e2 = login(&a, &users, unknown).unwrap_err();
    assert_eq!(e1, AppError::Unauthorized);
    assert_eq!((e1.status_code(), e1.message()), (e2.status_code(), e2.message()));
}

#[test]
fn login_with_right_password_issues_token() {
    let a = auth();
    let mut users = UserService::new();
    let h = hash_password("right-pass").unwrap();
    users.insert_user(11, "a@x.com".to_string(), "a".to_string(), h, 5).unwrap();
    let lr = LoginRequest { email: "a@x.com".to_string(), password: "right-pass".to_string() };
    let r = login(&a, &users, lr).unwrap();
    assert_eq!(r.user.id, 11);
    assert_eq!(a.verify_token(&r.token).unwrap().sub, id_text(11));
}

#[test]
fn registration_returns_token_for_new_user() {
    let a = auth();
    let mut users = UserService::new();
    let r = register(&a, &mut users, request("test@example.com", "testuser", "password123")).unwrap();
    assert_eq!(r.user.email, "test@example.com");
    assert_eq!(r.user.username, "testuser");
    assert_eq!(a.verify_token(&r.token).unwrap().sub, id_text(r.user.id));
    let stored = users.get_user_by_id(r.user.id).unwrap();
    assert_ne!(stored.password_hash, "password123");
    assert_eq!(verify_password_hash("password123", &stored.password_hash), Ok(true));
}

#[test]
fn second_registration_with_same_email_conflicts() {
    let a = auth();
    let mut users = UserService::new();
    register(&a, &mut users, request("dup@example.com", "one", "password123")).unwrap();
    let e = register(&a, &mut users, request("dup@example.com", "two", "password456"));
    assert_eq!(e.unwrap_err(), AppError::Conflict);
    assert_eq!(users.list_users(10, 0).unwrap().len(), 1);
}

#[test]
fn malformed_registration_is_a_validation_error() {
    let a = auth();
    let mut users = UserService::new();
    let bad = [
        request("not-an-email", "n", "password123"),
        request("a@x.com", "", "password123"),
        request("a@x.com", "n", "short"),
    ];
    for r in bad {
        assert_eq!(register(&a, &mut users, r).unwrap_err(), AppError::Validation);
    }
    assert!(users.list_users(10, 0).unwrap().is_empty());
}

#[test]
fn create_get_delete_round() {
    let mut users = UserService::new();
    let created = create_user(&mut users, request("a@x.com", "a", "secret123")).unwrap();
    let got = get_user(&users, created.id).unwrap();
    assert_eq!((got.email.as_str(), got.username.as_str()), ("a@x.com", "a"));
    assert_eq!(got.id, created.id);
    assert_eq!(delete_user(&mut users, created.id), Ok(()));
    assert_eq!(get_user(&users, created.id).unwrap_err(), AppError::NotFound);
    assert_eq!(delete_user(&mut users, created.id).unwrap_err(), AppError::NotFound);
}

#[test]
fn profile_update_validates_and_reports_missing_user() {
    let mut users = UserService::new();
    users.insert_user(1, "a@x.com".to_string(), "a".to_string(), "h".to_string(), 5).unwrap();
    let bad = UpdateUserRequest { email: Some("nope".to_string()), username: None };
    assert_eq!(update_user(&mut users, 1, bad).unwrap_err(), AppError::Validation);
    let empty_name = UpdateUserRequest { email: None, username: Some(String::new()) };
    assert_eq!(update_user(&mut users, 1, empty_name).unwrap_err(), AppError::Validation);
    let ok = UpdateUserRequest { email: Some("b@x.com".to_string()), username: None };
    assert_eq!(update_user(&mut users, 2, ok.clone()).unwrap_err(), AppError::NotFound);
    let u = update_user(&mut users, 1, ok).unwrap();
    assert_eq!((u.email.as_str(), u.username.as_str()), ("b@x.com", "a"));
}

#[test]
fn listing_hides_nothing_but_hashes() {
    let mut users = UserService::new();
    users.insert_user(1, "a@x.com".to_string(), "a".to_string(), "h".to_string(), 5).unwrap();
    users.insert_user(2, "b@x.com".to_string(), "b".to_string(), "h".to_string(), 6).unwrap();
    let page = list_users(&users, ListUsersQuery::new(None, None)).unwrap();
    assert_eq!(page.iter().map(|u| u.id).collect::<Vec<_>>(), vec![2, 1]);
    let q = ListUsersQuery::new(Some(-5), None);
    assert_eq!(list_users(&users, q).unwrap_err(), AppError::Database);
}

#[test]
fn port_may_open_with_a_plus() {
    assert_eq!(parse_port("+3000"), Some(3000));
    assert_eq!(parse_port("+"), None);
    assert_eq!(parse_port("++1"), None);
    assert_eq!(parse_port("-1"), None);
    let c = Config::from_vars(None, Some("+8080".to_string()), None).unwrap();
    assert_eq!(c.port, 8080);
}

#[test]
fn valid_update_of_existing_user_succeeds() {
    let mut users = UserService::new();
    users.insert_user(3, "a@x.com".to_string(), "a".to_string(), "h".to_string(), 5).unwrap();
    let empty = UpdateUserRequest { email: None, username: None };
    let u = update_user(&mut users, 3, empty).unwrap();
    assert_eq!((u.id, u.email.as_str(), u.username.as_str()), (3, "a@x.com", "a"));
    assert!(u.updated_at >= 5);
}

#[test]
fn auth_response_carries_a_working_token() {
    let a = auth();
    let mut users = UserService::new();
    users.insert_user(21, "a@x.com".to_string(), "a".to_string(), "h".to_string(), 5).unwrap();
    let u = users.get_user_by_id(21).unwrap();
    let r = a.create_auth_response(u).unwrap();
    assert_eq!(r.user.id, 21);
    let c = a.verify_token(&r.token).unwrap();
    assert_eq!((c.sub, c.exp - c.iat), (id_text(21), 86400));
}
