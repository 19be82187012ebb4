//! Signed session tokens: a compact signed claim set used as a bearer
//! credential. Issuing builds claims `{sub, username, iat, exp}` with a
//! one-day expiry and signs them under HMAC-SHA-256; verification checks
//! the token's shape, its signature, and the expiry.
use crate::clock::now_timestamp;
use crate::numfmt::{dec_int, fmt_i64, parse_i64_chars, parse_i64_spec};
use crate::oid::{hex_of_bytes, hex_string_of_bytes, id_wf};
use crate::strutil::chars_of_str;
use crate::user::User;
use hmac::Mac;
use jwt::{SignWithKey, VerifyWithKey};
use vstd::prelude::*;

verus! {

/// Seconds in one day: the lifetime of a token.
pub const ONE_DAY_IN_SECONDS: i64 = 86400;

/// The claim set carried by a token: subject id, username, and the issue
/// and expiry times as decimal seconds since the epoch.
#[derive(Clone, Debug)]
pub struct TokenClaims {
    pub sub: String,
    pub username: String,
    pub iat: String,
    pub exp: String,
}

/// How verification of a token can fail.
#[derive(Clone, Copy, Debug, PartialEq, Eq, Structural)]
pub enum TokenError {
    /// The token is well shaped, but its signature does not match the
    /// secret, or it has expired.
    InvalidSignature,
    /// The text is not a well-formed token: not three segments, a
    /// segment that is not base64url, a payload that is not JSON, or a
    /// claim set that does not carry the four readable claims.
    Malformed,
}

/// The compact signed token that the given claim strings and secret
/// produce: a function of its arguments alone.
pub uninterp spec fn jwt_sign_of(
    sub: Seq<char>,
    username: Seq<char>,
    iat: Seq<char>,
    exp: Seq<char>,
    secret: Seq<char>,
) -> Seq<char>;

/// What verifying a token string under a secret yields: the four claim
/// strings when the signature matches and the claims carry them;
/// `Err(Malformed)` when the text is not a well-shaped token carrying
/// the four claims; `Err(InvalidSignature)` when the shape is sound but
/// the signature does not validate under the secret. A function of the
/// token text and the secret alone.
pub uninterp spec fn jwt_verify_of(token: Seq<char>, secret: Seq<char>) -> Result<
    (Seq<char>, Seq<char>, Seq<char>, Seq<char>),
    TokenError,
>;

/// The verification outcome that carries the four claims.
pub open spec fn claims_ok(
    sub: Seq<char>,
    username: Seq<char>,
    iat: Seq<char>,
    exp: Seq<char>,
) -> Result<(Seq<char>, Seq<char>, Seq<char>, Seq<char>), TokenError> {
    Ok((sub, username, iat, exp))
}

/// The verification outcome that rejects the token.
pub open spec fn claims_err(e: TokenError) -> Result<
    (Seq<char>, Seq<char>, Seq<char>, Seq<char>),
    TokenError,
> {
    Err(e)
}

/// Signs the four claims under an HMAC-SHA-256 key built from the secret.
///
/// Relies on jwt's SignWithKey over a claim map: the token is a function
/// of the claims and the secret alone, and jwt's VerifyWithKey accepts it
/// under the same secret and hands the same claims back. This signing
/// path cannot fail: an HMAC key is built from a slice of any length, a
/// map of strings always serializes, and the HMAC itself is total.
#[verifier::external_body]
fn jwt_sign(sub: &str, username: &str, iat: &str, exp: &str, secret: &str) -> (r: String)
    ensures
        r@ == jwt_sign_of(sub@, username@, iat@, exp@, secret@),
        jwt_verify_of(r@, secret@) == claims_ok(sub@, username@, iat@, exp@),
{
    let key: hmac::Hmac<sha2::Sha256> = hmac::Hmac::new_from_slice(secret.as_bytes())
        .expect("an HMAC key is built from a slice of any length");
    let mut claims = std::collections::BTreeMap::new();
    claims.insert("sub", sub.to_string());
    claims.insert("username", username.to_string());
    claims.insert("iat", iat.to_string());
    claims.insert("exp", exp.to_string());
    claims.sign_with_key(&key).expect("HMAC signing of a string claim map cannot fail")
}

/// Verifies a token under an HMAC-SHA-256 key built from the secret and
/// extracts the four claims.
///
/// Relies on jwt's VerifyWithKey: the outcome is a function of the token
/// text and the secret alone. Its shape errors — a missing or extra
/// segment, bad base64, bad JSON — come back as `Malformed`, as does a
/// verified claim set missing one of the four claims; a signature or
/// algorithm mismatch comes back as `InvalidSignature`.
#[verifier::external_body]
fn jwt_verify(token: &str, secret: &str) -> (r: Result<TokenClaims, TokenError>)
    ensures
        match r {
            Ok(c) => jwt_verify_of(token@, secret@) == claims_ok(c.sub@, c.username@, c.iat@, c.exp@),
            Err(e) => jwt_verify_of(token@, secret@) == claims_err(e),
        },
{
    let key: hmac::Hmac<sha2::Sha256> = hmac::Hmac::new_from_slice(secret.as_bytes())
        .expect("an HMAC key is built from a slice of any length");
    let mut claims: std::collections::BTreeMap<String, String> = token.verify_with_key(&key)
        .map_err(|e| match e {
            jwt::Error::InvalidSignature | jwt::Error::AlgorithmMismatch(_, _) | jwt::Error::RustCryptoMac(_) | jwt::Error::RustCryptoMacKeyLength(_) => TokenError::InvalidSignature,
            _ => TokenError::Malformed,
        })?;
    Ok(TokenClaims {
        sub: claims.remove("sub").ok_or(TokenError::Malformed)?,
        username: claims.remove("username").ok_or(TokenError::Malformed)?,
        iat: claims.remove("iat").ok_or(TokenError::Malformed)?,
        exp: claims.remove("exp").ok_or(TokenError::Malformed)?,
    })
}

pub struct Token {}

impl Token {
    /// Builds and signs the claim set for `user` as of the moment `now`,
    /// expiring one day later. Signing cannot fail: a token is always
    /// produced, and it verifies under the same secret.
    pub fn issue_at(user: &User, secret_key: &str, now: i64) -> (r: String)
        requires
            user.id matches Some(b) && id_wf(b@),
            now <= i64::MAX - ONE_DAY_IN_SECONDS,
        ensures
            r@ == jwt_sign_of(
                hex_of_bytes(user.id->Some_0@),
                user.name@,
                dec_int(now as int),
                dec_int(now + ONE_DAY_IN_SECONDS),
                secret_key@,
            ),
            jwt_verify_of(r@, secret_key@) == claims_ok(
                hex_of_bytes(user.id->Some_0@),
                user.name@,
                dec_int(now as int),
                dec_int(now + ONE_DAY_IN_SECONDS),
            ),
    {
        let id_bytes = user.id.as_ref().unwrap();
        let sub = hex_string_of_bytes(id_bytes);
        let iat_s = fmt_i64(now);
        let exp_s = fmt_i64(now + ONE_DAY_IN_SECONDS);
        jwt_sign(sub.as_str(), user.name.as_str(), iat_s.as_str(), exp_s.as_str(), secret_key)
    }

    /// Issues a token for `user` as of the current time. `None` only
    /// when the clock reads within a day of the far end of its range.
    pub fn from_user(user: &User, secret_key: &str) -> (r: Option<String>)
        requires
            user.id matches Some(b) && id_wf(b@),
        ensures
            r matches Some(t) ==> exists|now: int|
                jwt_verify_of(t@, secret_key@) == claims_ok(
                    hex_of_bytes(user.id->Some_0@),
                    user.name@,
                    #[trigger] dec_int(now),
                    dec_int(now + ONE_DAY_IN_SECONDS),
                ),
    {
        let now = now_timestamp();
        if now > i64::MAX - ONE_DAY_IN_SECONDS {
            return None;
        }
        let t = Token::issue_at(user, secret_key, now);
        proof {
            assert(jwt_verify_of(t@, secret_key@) == claims_ok(
                hex_of_bytes(user.id->Some_0@),
                user.name@,
                dec_int(now as int),
                dec_int(now as int + ONE_DAY_IN_SECONDS),
            ));
        }
        Some(t)
    }

    /// Verifies a token as of the moment `now`: the token must be well
    /// shaped, the signature must match the secret, the claims must
    /// carry a readable expiry, and the expiry must not lie before
    /// `now`. A broken shape or an unreadable claim set is `Malformed`;
    /// a signature mismatch and an expired token are `InvalidSignature`.
    pub fn parse_at(token: &str, secret_key: &str, now: i64) -> (r: Result<TokenClaims, TokenError>)
        ensures
            r is Ok <==> (jwt_verify_of(token@, secret_key@) matches Ok(cl) && parse_i64_spec(cl.3)
                matches Some(e) && e >= now),
            r matches Ok(c) ==> jwt_verify_of(token@, secret_key@) == claims_ok(
                c.sub@,
                c.username@,
                c.iat@,
                c.exp@,
            ),
            r matches Err(e) ==> match jwt_verify_of(token@, secret_key@) {
                Err(k) => e == k,
                Ok(cl) => match parse_i64_spec(cl.3) {
                    None => e == TokenError::Malformed,
                    Some(x) => e == TokenError::InvalidSignature && x < now,
                },
            },
    {
        match jwt_verify(token, secret_key) {
            Err(e) => Err(e),
            Ok(claims) => {
                let exp_chars = chars_of_str(claims.exp.as_str());
                match parse_i64_chars(&exp_chars) {
                    None => Err(TokenError::Malformed),
                    Some(x) => if x < now {
                        Err(TokenError::InvalidSignature)
                    } else {
                        Ok(claims)
                    },
                }
            },
        }
    }

    /// Verifies a token as of the current time.
    pub fn parse(token: &str, secret_key: &str) -> (r: Result<TokenClaims, TokenError>)
        ensures
            r matches Ok(c) ==> jwt_verify_of(token@, secret_key@) == claims_ok(
                c.sub@,
                c.username@,
                c.iat@,
                c.exp@,
            ),
            jwt_verify_of(token@, secret_key@) matches Err(k) ==> r == Err::<
                TokenClaims,
                TokenError,
            >(k),
    {
        let now = now_timestamp();
        Token::parse_at(token, secret_key, now)
    }
}

/// Law: a token issued for a user at `now` round-trips. Parsing it under
/// the same secret at a moment `at` succeeds exactly when `at` is not
/// past the expiry one day on, and then carries the user's id in `sub`,
/// the user's name in `username`, and the two timestamps; past the
/// expiry it is rejected as an invalid signature.
pub fn issue_then_parse(user: &User, secret_key: &str, now: i64, at: i64) -> (r: Result<
    TokenClaims,
    TokenError,
>)
    requires
        user.id matches Some(b) && id_wf(b@),
        now <= i64::MAX - ONE_DAY_IN_SECONDS,
    ensures
        r is Ok <==> at <= now + ONE_DAY_IN_SECONDS,
        r matches Ok(c) ==> {
            &&& c.sub@ == hex_of_bytes(user.id->Some_0@)
            &&& c.username@ == user.name@
            &&& c.iat@ == dec_int(now as int)
            &&& c.exp@ == dec_int(now + ONE_DAY_IN_SECONDS)
        },
        r matches Err(e) ==> e == TokenError::InvalidSignature,
{
    let t = Token::issue_at(user, secret_key, now);
    proof {
        crate::numfmt::lemma_parse_dec_int_round_trip((now + ONE_DAY_IN_SECONDS) as i64);
    }
    Token::parse_at(t.as_str(), secret_key, at)
}

} // verus!
