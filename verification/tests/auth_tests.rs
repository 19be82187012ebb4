use blog_api::encryption::{hash_password, verify_password};
use blog_api::signin::{signin, signin_check, SigninCheck, SigninOutcome};
use blog_api::token::Token;
use blog_api::user::{User, UserRole};

fn stored_user(password: &str) -> User {
    User {
        id: Some(vec![3; 12]),
        name: "alice".to_string(),
        password: hash_password(password).unwrap(),
        role: UserRole::User,
        created_at: 0,
        updated_at: 0,
    }
}

#[test]
fn hashed_password_verifies() {
    let hash = hash_password("hunter2").unwrap();
    assert_eq!(verify_password("hunter2", &hash), Some(true));
    assert_eq!(verify_password("wrong", &hash), Some(false));
}

#[test]
fn malformed_hash_cannot_be_checked() {
    assert_eq!(verify_password("x", "not-a-bcrypt-hash"), None);
}

#[test]
fn correct_password_is_accepted() {
    let user = stored_user("hunter2");
    assert_eq!(signin_check(Some(&user), "hunter2"), SigninCheck::Accepted);
}

#[test]
fn wrong_password_and_unknown_name_reject_identically() {
    let user = stored_user("hunter2");
    let wrong = signin_check(Some(&user), "wrong");
    let missing = signin_check(None, "anything");
    assert_eq!(wrong, SigninCheck::InvalidCredentials);
    assert_eq!(missing, SigninCheck::InvalidCredentials);
    assert_eq!(wrong, missing);
    assert_eq!(wrong.status_code(), 401);
    assert_eq!(missing.status_code(), 401);
    assert_eq!(wrong.message(), "Invalid name or password");
    assert_eq!(missing.message(), wrong.message());
}

#[test]
fn accepted_signin_reports_success() {
    let user = stored_user("pw");
    let check = signin_check(Some(&user), "pw");
    assert_eq!(check.status_code(), 200);
    assert_eq!(check.message(), "Login successful");
}

#[test]
fn signin_issues_a_working_token() {
    let user = stored_user("pw");
    match signin(Some(&user), "pw", "secret") {
        SigninOutcome::Success(token) => {
            let claims = Token::parse(&token, "secret").unwrap();
            assert_eq!(claims.username, "alice");
        }
        _ => panic!("expected a token"),
    }
}

#[test]
fn signin_rejects_bad_credentials() {
    let user = stored_user("pw");
    assert!(matches!(
        signin(Some(&user), "nope", "secret"),
        SigninOutcome::Rejected
    ));
    assert!(matches!(signin(None, "pw", "secret"), SigninOutcome::Rejected));
}
