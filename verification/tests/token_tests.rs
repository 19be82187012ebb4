use blog_api::token::{issue_then_parse, Token, TokenError};
use blog_api::user::{User, UserRole};
use hmac::{Hmac, Mac};
use jwt::SignWithKey;
use sha2::Sha256;
use std::collections::BTreeMap;

fn user_with_id(byte: u8, name: &str) -> User {
    User {
        id: Some(vec![byte; 12]),
        name: name.to_string(),
        password: String::new(),
        role: UserRole::User,
        created_at: 0,
        updated_at: 0,
    }
}

fn hex_of(byte: u8) -> String {
    let mut s = String::new();
    for _ in 0..12 {
        s.push_str(&format!("{:02x}", byte));
    }
    s
}

fn sign_raw(claims: &[(&str, &str)], secret: &str) -> String {
    let key: Hmac<Sha256> = Hmac::new_from_slice(secret.as_bytes()).unwrap();
    let map: BTreeMap<&str, String> = claims
        .iter()
        .map(|(k, v)| (*k, v.to_string()))
        .collect();
    map.sign_with_key(&key).unwrap()
}

#[test]
fn round_trip_returns_the_users_claims() {
    let user = user_with_id(0xab, "alice");
    let token = Token::issue_at(&user, "s", 1000);
    let claims = Token::parse_at(&token, "s", 1500).unwrap();
    assert_eq!(claims.sub, hex_of(0xab));
    assert_eq!(claims.username, "alice");
    assert_eq!(claims.iat, "1000");
    assert_eq!(claims.exp, "87400");
}

#[test]
fn expired_token_is_rejected() {
    let user = user_with_id(1, "alice");
    let token = Token::issue_at(&user, "s", 1000);
    // the expiry moment itself is still accepted; one second past is not
    assert!(Token::parse_at(&token, "s", 87400).is_ok());
    assert!(matches!(
        Token::parse_at(&token, "s", 87401),
        Err(TokenError::InvalidSignature)
    ));
}

#[test]
fn wrong_secret_is_rejected_as_an_invalid_signature() {
    let user = user_with_id(1, "alice");
    let token = Token::issue_at(&user, "s", 1000);
    assert!(matches!(
        Token::parse_at(&token, "wrong-secret", 1500),
        Err(TokenError::InvalidSignature)
    ));
}

#[test]
fn broken_shapes_are_malformed() {
    // three segments, but no segment is base64url JSON
    assert!(matches!(
        Token::parse_at("definitely.not.atoken", "s", 0),
        Err(TokenError::Malformed)
    ));
    // not three segments
    assert!(matches!(Token::parse_at("", "s", 0), Err(TokenError::Malformed)));
    assert!(matches!(
        Token::parse_at("only.two", "s", 0),
        Err(TokenError::Malformed)
    ));
    assert!(matches!(
        Token::parse_at("a.b.c.d", "s", 0),
        Err(TokenError::Malformed)
    ));
}

#[test]
fn verified_token_without_the_claims_is_malformed() {
    let token = sign_raw(&[("sub", "x")], "s");
    assert!(matches!(
        Token::parse_at(&token, "s", 0),
        Err(TokenError::Malformed)
    ));
}

#[test]
fn unreadable_expiry_is_malformed() {
    let token = sign_raw(
        &[("sub", "x"), ("username", "y"), ("iat", "0"), ("exp", "soon")],
        "s",
    );
    assert!(matches!(
        Token::parse_at(&token, "s", 0),
        Err(TokenError::Malformed)
    ));
}

#[test]
fn from_user_token_parses_under_the_same_secret() {
    let user = user_with_id(7, "bob");
    let token = Token::from_user(&user, "top").unwrap();
    let claims = Token::parse(&token, "top").unwrap();
    assert_eq!(claims.sub, hex_of(7));
    assert_eq!(claims.username, "bob");
}

#[test]
fn issue_then_parse_law_on_concrete_times() {
    let user = user_with_id(9, "carol");
    match issue_then_parse(&user, "s", 500, 600) {
        Ok(claims) => {
            assert_eq!(claims.username, "carol");
            assert_eq!(claims.sub, hex_of(9));
            assert_eq!(claims.iat, "500");
            assert_eq!(claims.exp, "86900");
        }
        Err(_) => panic!("token must verify before its expiry"),
    }
    match issue_then_parse(&user, "s", 500, 500 + 86400 + 1) {
        Ok(_) => panic!("token must be rejected past its expiry"),
        Err(e) => assert_eq!(e, TokenError::InvalidSignature),
    }
}
