//! What is known of a caller: the claims of a token, the token in a request
//! header, and the check of a password at login.
use crate::text::{has_prefix, str_eq, strip_prefix};
use vstd::prelude::*;

verus! {

/// Seconds for which an access token is valid.
pub const ACCESS_TOKEN_SECONDS: i64 = 3600;

/// Seconds for which a refresh token is valid.
pub const REFRESH_TOKEN_SECONDS: i64 = 604800;

/// The claims that a token carries.
#[derive(Debug)]
pub struct Claims {
    /// The identifier of the user.
    pub sub: String,
    pub email: String,
    pub role: String,
    /// The time at which the token expires, in seconds.
    pub exp: i64,
    /// The time at which the token was issued, in seconds.
    pub iat: i64,
    /// `"access"` or `"refresh"`.
    pub token_type: String,
}

/// A caller whose token was accepted.
#[derive(Debug)]
pub struct AuthUser(pub Claims);

/// What follows `Bearer ` in the value of an authorization header, if the
/// value begins so.
pub open spec fn bearer_token(header: Option<Seq<char>>) -> Option<Seq<char>> {
    match header {
        Some(value) => if has_prefix(value, "Bearer "@) {
            Some(value.skip("Bearer "@.len() as int))
        } else {
            None
        },
        None => None,
    }
}

/// The view of an optional borrowed text.
pub open spec fn header_view(header: Option<&str>) -> Option<Seq<char>> {
    match header {
        Some(value) => Some(value@),
        None => None,
    }
}

/// The token of a request, from the value of its authorization header.
pub fn extract_bearer_token(auth_header: Option<&str>) -> (token: Option<String>)
    ensures
        crate::step::text_view(token) == bearer_token(header_view(auth_header)),
{
    match auth_header {
        Some(value) => strip_prefix(value, "Bearer "),
        None => None,
    }
}

/// The claims of a token of the kind `token_type` that is issued at the
/// time `now` and is valid for `lifetime` seconds.
pub fn issue_claims(
    user_id: &str,
    email: &str,
    role: &str,
    token_type: &str,
    now: i64,
    lifetime: i64,
) -> (claims: Claims)
    requires
        now + lifetime <= i64::MAX,
        now + lifetime >= i64::MIN,
    ensures
        claims.sub@ == user_id@,
        claims.email@ == email@,
        claims.role@ == role@,
        claims.token_type@ == token_type@,
        claims.iat == now,
        claims.exp == now + lifetime,
{
    Claims {
        sub: user_id.to_owned(),
        email: email.to_owned(),
        role: role.to_owned(),
        exp: now + lifetime,
        iat: now,
        token_type: token_type.to_owned(),
    }
}

/// Whether the claims are those of a refresh token.
pub fn is_refresh_token(claims: &Claims) -> (refresh: bool)
    ensures
        refresh == (claims.token_type@ == "refresh"@),
{
    str_eq(claims.token_type.as_str(), "refresh")
}

/// What the check of a password against a stored hash gives: whether the
/// password is the one that was hashed, or nothing where the hash cannot
/// be read. It stands for what `bcrypt::verify` returns for the two texts.
pub uninterp spec fn password_verdict(password: Seq<char>, hash: Seq<char>) -> Option<bool>;

/// Checks a password against a stored hash with `bcrypt::verify`: the
/// result is that function's verdict on the two texts, and `None` where it
/// reports an error.
#[verifier::external_body]
fn bcrypt_verify(password: &str, hash: &str) -> (verdict: Option<bool>)
    ensures
        verdict == password_verdict(password@, hash@),
{
    match bcrypt::verify(password, hash) {
        Ok(same) => Some(same),
        Err(_) => None,
    }
}

/// Hashes a password with `bcrypt::hash` at the cost `cost`, under a salt
/// that is drawn at random; `None` where that function reports an error.
/// Which hash comes is not stated, only that `bcrypt::verify` finds the
/// password to be the one it was made of: the hash names its cost and its
/// salt, and `verify` hashes the password anew under the two and compares.
#[verifier::external_body]
fn bcrypt_hash(password: &str, cost: u32) -> (hash: Option<String>)
    ensures
        hash.is_some() ==> password_verdict(password@, hash.unwrap()@) == Some(true),
{
    match bcrypt::hash(password, cost) {
        Ok(hash) => Some(hash),
        Err(_) => None,
    }
}

/// The cost at which passwords are hashed.
pub const PASSWORD_COST: u32 = 12;

/// Whether `password` is the password that `hash` was made of; `None`
/// where the hash cannot be read.
pub fn verify_password(password: &str, hash: &str) -> (verdict: Option<bool>)
    ensures
        verdict == password_verdict(password@, hash@),
{
    bcrypt_verify(password, hash)
}

/// A hash of `password` to store in its place, against which the password
/// verifies; `None` where none could be made.
pub fn hash_password(password: &str) -> (hash: Option<String>)
    ensures
        hash.is_some() ==> password_verdict(password@, hash.unwrap()@) == Some(true),
{
    bcrypt_hash(password, PASSWORD_COST)
}

/// Why a login is refused.
#[derive(Debug, Clone, Copy, PartialEq, Eq, Structural)]
pub enum LoginError {
    /// No user has the address, or the password is not the user's.
    InvalidCredentials,
    /// The account of the user is not active.
    AccountNotActive,
    /// The stored hash of the password cannot be read.
    UnreadableHash,
}

/// The verdict on a login as the account of a user whose status is
/// `status`, given the verdict on the password: the status is looked at
/// first.
pub open spec fn login_verdict(status: Seq<char>, password: Option<bool>) -> Result<
    (),
    LoginError,
> {
    if status != "active"@ {
        Err(LoginError::AccountNotActive)
    } else {
        match password {
            None => Err(LoginError::UnreadableHash),
            Some(false) => Err(LoginError::InvalidCredentials),
            Some(true) => Ok(()),
        }
    }
}

/// Judges a login from the status of the account and the verdict on the
/// password.
pub fn judge_login(status: &str, password: Option<bool>) -> (verdict: Result<(), LoginError>)
    ensures
        verdict == login_verdict(status@, password),
{
    if !str_eq(status, "active") {
        return Err(LoginError::AccountNotActive);
    }
    match password {
        None => Err(LoginError::UnreadableHash),
        Some(false) => Err(LoginError::InvalidCredentials),
        Some(true) => Ok(()),
    }
}

/// Judges a login as the account of a user whose status is `status` and
/// whose stored hash is `password_hash`, with the password `password`. The
/// password is checked only for an active account.
pub fn check_login(status: &str, password: &str, password_hash: &str) -> (verdict: Result<
    (),
    LoginError,
>)
    ensures
        verdict == login_verdict(status@, password_verdict(password@, password_hash@)),
{
    if !str_eq(status, "active") {
        return Err(LoginError::AccountNotActive);
    }
    judge_login(status, verify_password(password, password_hash))
}

} // verus!
