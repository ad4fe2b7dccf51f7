//! The user service's decisions: logging in and issuing a token, checking a token,
//! and registering a user.

use crate::model::{LoginReq, LoginResp, NewUser, RegisterReq, TokenClaims, UserRow};
use jsonwebtoken::errors::ErrorKind;
use vstd::prelude::*;

verus! {

/// How long a login token is valid, in seconds: seven days.
pub const JWT_EXPIRE_SECONDS: i64 = 604800;

/// The bcrypt error.
#[verifier::external_type_specification]
#[verifier::external_body]
pub struct ExBcryptError(bcrypt::BcryptError);

/// The `jsonwebtoken` error.
#[verifier::external_type_specification]
#[verifier::external_body]
pub struct ExJwtError(jsonwebtoken::errors::Error);

/// What `bcrypt::verify` answers for a password and a stored hash: whether they match,
/// or `None` where it fails.
pub uninterp spec fn bcrypt_verify_result(password: Seq<char>, hash: Seq<char>) -> Option<bool>;

/// The token `jsonwebtoken::encode` makes of the claims `{"uid": uid, "exp": exp}`
/// with the default header (HS256) and the HMAC key `secret`.
pub uninterp spec fn jwt_encode_result(uid: i64, exp: i64, secret: Seq<u8>) -> Seq<char>;

/// What `jsonwebtoken::decode` with the default validation and the HMAC key `secret`
/// makes of `token`, leaving the expiry aside. `Ok` where the token is well formed,
/// its HS256 signature is that of `secret`, and its claims hold a non-negative `exp`
/// and no audience: then the claims `uid` and `exp` as `i64` where they are such
/// numbers. `Err(true)` where the token splits at its last two dots into a header
/// naming HS256, a payload and a signature, and the signature is not the HS256 MAC of
/// `secret` over the header and payload. `Err(false)` for any other refusal.
pub uninterp spec fn jwt_token_check(token: Seq<char>, secret: Seq<u8>) -> Result<
    (Option<i64>, Option<i64>),
    bool,
>;

/// Calls `bcrypt::verify(password, hash)`. Claimed: its answer, named by
/// `bcrypt_verify_result`.
#[verifier::external_body]
fn bcrypt_verify(password: &String, hash: &String) -> (r: Result<bool, bcrypt::BcryptError>)
    ensures
        match r {
            Ok(b) => bcrypt_verify_result(password@, hash@) == Some(b),
            Err(_) => bcrypt_verify_result(password@, hash@) is None,
        },
{
    bcrypt::verify(password.as_str(), hash.as_str())
}

/// Calls `bcrypt::hash(password, bcrypt::DEFAULT_COST)`. The salt is random, so the
/// hash is not named; claimed: a hash it makes verifies against the password it was
/// made of.
#[verifier::external_body]
fn bcrypt_hash(password: &String) -> (r: Result<String, bcrypt::BcryptError>)
    ensures
        r matches Ok(h) ==> bcrypt_verify_result(password@, h@) == Some(true),
{
    bcrypt::hash(password.as_str(), bcrypt::DEFAULT_COST)
}

/// Calls `jsonwebtoken::encode` with the default header, the claims object
/// `{"uid": uid, "exp": exp}` and the HMAC key `secret`. Claimed: it succeeds (the
/// key and the header are both HMAC, a JSON object serialises, and an HMAC signs any
/// message), its token is named by `jwt_encode_result`, and the token's signature
/// checks under the same key and gives back both claims (the `exp` claim must be
/// non-negative to count as one).
#[verifier::external_body]
fn jwt_encode(uid: i64, exp: i64, secret: &[u8]) -> (r: Result<String, jsonwebtoken::errors::Error>)
    ensures
        r is Ok,
        r matches Ok(t) ==> t@ == jwt_encode_result(uid, exp, secret@),
        r matches Ok(t) ==> (exp >= 0 ==> (jwt_token_check(t@, secret@) matches Ok(c) && c.0
            == Some(uid) && c.1 == Some(exp))),
{
    let mut claims = serde_json::Map::new();
    claims.insert("uid".to_string(), serde_json::Value::from(uid));
    claims.insert("exp".to_string(), serde_json::Value::from(exp));
    jsonwebtoken::encode(
        &jsonwebtoken::Header::default(),
        &serde_json::Value::Object(claims),
        &jsonwebtoken::EncodingKey::from_secret(secret),
    )
}

/// What decoding a token gave, and the clock reading, in seconds since the epoch, at
/// which its expiry is judged.
#[derive(Debug)]
pub struct DecodedToken {
    pub claims: Result<(Option<i64>, Option<i64>), TokenFailure>,
    pub now: u64,
}

/// Calls `jsonwebtoken::decode` with the default validation but its clock step off
/// (HS256, the `exp` claim required) and the HMAC key `secret`, picks the `uid` and
/// `exp` claims as `i64`, and reads the clock with `jsonwebtoken::get_current_timestamp`,
/// the reading jsonwebtoken's own expiry step makes. A bad signature is
/// `BadSignature`, any other failure `Other` with the error's text. Claimed: it
/// accepts exactly what `jwt_token_check` accepts, with those claims; a token whose
/// MAC is not that of `secret` is `BadSignature`. Nothing is claimed of the clock
/// reading, nor of the text of `Other`. jsonwebtoken panics when the machine's clock
/// reads before 1970.
#[verifier::external_body]
fn jwt_decode(token: &str, secret: &[u8]) -> (r: DecodedToken)
    ensures
        r.claims matches Ok(c) ==> (jwt_token_check(token@, secret@) matches Ok(d) && d == c),
        jwt_token_check(token@, secret@) is Ok ==> r.claims is Ok,
        jwt_token_check(token@, secret@) is Err ==> r.claims is Err,
        jwt_token_check(token@, secret@) matches Err(true) ==> r.claims matches Err(
            TokenFailure::BadSignature,
        ),
        !(r.claims matches Err(TokenFailure::Expired)),
{
    let mut validation = jsonwebtoken::Validation::default();
    validation.validate_exp = false;
    let key = jsonwebtoken::DecodingKey::from_secret(secret);
    let d = match jsonwebtoken::decode::<serde_json::Value>(token, &key, &validation) {
        Ok(t) => Ok((t.claims.get("uid").and_then(|v| v.as_i64()), t.claims.get("exp").and_then(|v| v.as_i64()))),
        Err(e) => Err(match e.kind() {
            ErrorKind::InvalidSignature => TokenFailure::BadSignature,
            _ => TokenFailure::Other(e.to_string()),
        }),
    };
    DecodedToken { claims: d, now: jsonwebtoken::get_current_timestamp() }
}

/// The key that signs and checks login tokens.
pub open spec fn jwt_secret_bytes() -> Seq<u8> {
    seq![114u8, 117u8, 115u8, 116u8, 95u8, 105u8, 109u8, 95u8, 50u8, 48u8, 50u8, 54u8]
}

/// The key that signs and checks login tokens: the bytes of `rust_im_2026`.
pub fn jwt_secret() -> (r: Vec<u8>)
    ensures
        r@ == jwt_secret_bytes(),
{
    let r: Vec<u8> = vec![114u8, 117u8, 115u8, 116u8, 95u8, 105u8, 109u8, 95u8, 50u8, 48u8, 50u8, 54u8];
    proof {
        assert(r@ =~= jwt_secret_bytes());
    }
    r
}

/// Why a login fails.
#[derive(Debug)]
pub enum LoginError {
    /// No user has the name given.
    UserNotFound,
    /// The password does not match the user's, or could not be checked.
    WrongPassword,
    /// The token could not be made (the encoder's error; with an HMAC key it does not occur).
    Token(jsonwebtoken::errors::Error),
}

impl LoginError {
    /// The text the API shows for the error.
    pub fn message(&self) -> (r: String)
        ensures
            self is UserNotFound ==> r@ == "User not found"@,
            self is WrongPassword ==> r@ == "User wrong password"@,
    {
        match self {
            LoginError::UserNotFound => String::from_str("User not found"),
            LoginError::WrongPassword => String::from_str("User wrong password"),
            LoginError::Token(e) => jwt_error_text(e),
        }
    }
}

/// Calls `jsonwebtoken::errors::Error`'s `to_string`. Nothing is claimed of the text.
#[verifier::external_body]
fn jwt_error_text(e: &jsonwebtoken::errors::Error) -> String {
    e.to_string()
}

/// Why a login token is refused.
#[derive(Debug)]
pub enum TokenFailure {
    /// The token has expired.
    Expired,
    /// The token's signature is not the service's.
    BadSignature,
    /// Any other fault, with its description.
    Other(String),
}

/// The text the service gives for a refused token, as a value.
pub open spec fn failure_text(f: TokenFailure) -> Seq<char> {
    match f {
        TokenFailure::Expired => "token expired"@,
        TokenFailure::BadSignature => "invalid token signature"@,
        TokenFailure::Other(d) => "token invalid: "@ + d@,
    }
}

/// The text the service gives for a refused token.
pub fn token_failure_text(f: &TokenFailure) -> (r: String)
    ensures
        r@ == failure_text(*f),
{
    match f {
        TokenFailure::Expired => String::from_str("token expired"),
        TokenFailure::BadSignature => String::from_str("invalid token signature"),
        TokenFailure::Other(d) => {
            let mut s = String::from_str("token invalid: ");
            s.append(d.as_str());
            s
        },
    }
}

/// What a token check answers for the claims of a token whose signature checks: the
/// user's id where both `uid` and `exp` are integers, else the failure of claims that
/// do not have the token's shape.
pub open spec fn claims_verdict(c: (Option<i64>, Option<i64>)) -> Result<i64, Seq<char>> {
    match c {
        (Some(uid), Some(_)) => Ok(uid),
        (None, _) => Err("token invalid: JSON error: missing field `uid`"@),
        (Some(_), None) => Err("token invalid: JSON error: missing field `exp`"@),
    }
}

/// What a token check answers, given what decoding the token gave.
pub open spec fn token_verdict_of(d: Result<(Option<i64>, Option<i64>), TokenFailure>) -> Result<
    i64,
    Seq<char>,
> {
    match d {
        Ok(c) => claims_verdict(c),
        Err(f) => Err(failure_text(f)),
    }
}

/// A token check's answer with its text taken as a value.
pub open spec fn verdict_view(r: Result<i64, String>) -> Result<i64, Seq<char>> {
    match r {
        Ok(uid) => Ok(uid),
        Err(m) => Err(m@),
    }
}

/// The answer to a token that has expired.
pub open spec fn expired_answer() -> Result<i64, Seq<char>> {
    Err("token expired"@)
}

/// The answer to a token whose signature is not the service's.
pub open spec fn bad_signature_answer() -> Result<i64, Seq<char>> {
    Err("invalid token signature"@)
}

/// The answers a check of `token` may give: "invalid token signature" where its MAC is
/// not that of the service's key, whatever the clock; a refusal where its signature or
/// shape fails otherwise; else the verdict on its claims, or, if it has expired by the
/// clock, "token expired".
pub open spec fn token_check_allows(token: Seq<char>, answer: Result<i64, Seq<char>>) -> bool {
    match jwt_token_check(token, jwt_secret_bytes()) {
        Err(true) => answer == bad_signature_answer(),
        Err(false) => answer is Err,
        Ok(c) => answer == claims_verdict(c) || answer == expired_answer(),
    }
}

/// Answers a token check from what decoding the token gave: the user's id, or the
/// text of the failure.
pub fn token_verdict(d: Result<(Option<i64>, Option<i64>), TokenFailure>) -> (r: Result<i64, String>)
    ensures
        verdict_view(r) == token_verdict_of(d),
{
    match d {
        Ok((Some(uid), Some(_))) => Ok(uid),
        Ok((None, _)) => Err(String::from_str("token invalid: JSON error: missing field `uid`")),
        Ok((Some(_), None)) => Err(String::from_str("token invalid: JSON error: missing field `exp`")),
        Err(f) => Err(token_failure_text(&f)),
    }
}

/// How much past its `exp` a token is still taken, in seconds: jsonwebtoken's
/// default leeway.
pub const EXPIRY_LEEWAY_SECONDS: u64 = 60;

/// What a token check answers at clock reading `now` (seconds since the epoch) for
/// the claims of a token whose signature checks: claims without an integer `uid` or
/// `exp` are refused first; then a token whose `exp` is more than the leeway before
/// `now` has expired; otherwise the answer is the user's id.
pub open spec fn claims_verdict_at(c: (Option<i64>, Option<i64>), now: u64) -> Result<i64, Seq<char>> {
    match c {
        (Some(uid), Some(exp)) => if exp < now - EXPIRY_LEEWAY_SECONDS {
            expired_answer()
        } else {
            Ok(uid)
        },
        _ => claims_verdict(c),
    }
}

/// What a token check answers at clock reading `now`, given what decoding the token
/// gave.
pub open spec fn token_verdict_at_of(
    d: Result<(Option<i64>, Option<i64>), TokenFailure>,
    now: u64,
) -> Result<i64, Seq<char>> {
    match d {
        Ok(c) => claims_verdict_at(c, now),
        Err(f) => Err(failure_text(f)),
    }
}

/// Whether `m` is the text of a token refused before its claims are read: a bad
/// signature, or "token invalid: " and the decoder's description.
pub open spec fn decode_refusal_text(m: Seq<char>) -> bool {
    m == "invalid token signature"@ || "token invalid: "@.is_prefix_of(m)
}

/// The answers a check of `token` at clock reading `now` may give: "invalid token
/// signature" where its MAC is not that of the service's key; a refusal of the
/// decoder, never "token expired", where it fails otherwise; else exactly the verdict
/// on its claims at `now`.
pub open spec fn token_check_allows_at(token: Seq<char>, now: u64, answer: Result<i64, Seq<char>>) -> bool {
    match jwt_token_check(token, jwt_secret_bytes()) {
        Err(true) => answer == bad_signature_answer(),
        Err(false) => answer matches Err(m) && decode_refusal_text(m),
        Ok(c) => answer == claims_verdict_at(c, now),
    }
}

/// Answers a token check from what decoding the token gave and the clock reading
/// `now`: the user's id, or the text of the refusal.
pub fn token_verdict_at(d: Result<(Option<i64>, Option<i64>), TokenFailure>, now: u64) -> (r: Result<
    i64,
    String,
>)
    ensures
        verdict_view(r) == token_verdict_at_of(d, now),
{
    match d {
        Ok((Some(uid), Some(exp))) => {
            if (exp as i128) < (now as i128) - (EXPIRY_LEEWAY_SECONDS as i128) {
                Err(String::from_str("token expired"))
            } else {
                Ok(uid)
            }
        },
        other => token_verdict(other),
    }
}

/// Checks a login token: its signature under the service's key, its shape and, by the
/// clock, its expiry. The answer is the token's user, or the text of the refusal: it is
/// what a check at some clock reading allows, the reading jsonwebtoken takes.
pub fn verify_token(token: &str) -> (r: Result<i64, String>)
    ensures
        token_check_allows(token@, verdict_view(r)),
        exists|now: u64| #[trigger] token_check_allows_at(token@, now, verdict_view(r)),
{
    let secret = jwt_secret();
    let decoded = jwt_decode(token, secret.as_slice());
    let now = decoded.now;
    proof {
        let ghost c = decoded.claims;
        match c {
            Err(TokenFailure::Other(d)) => {
                let t = "token invalid: "@;
                assert((t + d@).subrange(0, t.len() as int) =~= t);
            },
            _ => {},
        }
    }
    let r = token_verdict_at(decoded.claims, now);
    proof {
        assert(token_check_allows_at(token@, now, verdict_view(r)));
    }
    r
}

/// A token is answered "token expired" only by the clock: at reading `now` that answer
/// needs a token whose signature and shape check and whose `exp` is more than the
/// leeway before `now`.
pub proof fn law_expired_only_by_clock(token: Seq<char>, now: u64)
    requires
        token_check_allows_at(token, now, expired_answer()),
    ensures
        jwt_token_check(token, jwt_secret_bytes()) matches Ok(c) && c.0 is Some && c.1 is Some
            && c.1->0 < now - EXPIRY_LEEWAY_SECONDS,
{
    reveal_strlit("token expired");
    reveal_strlit("invalid token signature");
    reveal_strlit("token invalid: JSON error: missing field `uid`");
    reveal_strlit("token invalid: JSON error: missing field `exp`");
    reveal_strlit("token invalid: ");
    assert("token expired"@[0] != "invalid token signature"@[0]);
    assert("token expired"@[6] != "token invalid: "@[6]);
    assert(!"token invalid: "@.is_prefix_of("token expired"@));
    assert("token expired"@.len() != "token invalid: JSON error: missing field `uid`"@.len());
    assert("token expired"@.len() != "token invalid: JSON error: missing field `exp`"@.len());
}

/// A token issued at login for user `uid` at time `t0` checks as that user's at every
/// clock reading up to its expiry plus the leeway: whatever the user's id.
pub proof fn law_login_token_accepted_until_expiry(
    token: Seq<char>,
    uid: i64,
    t0: i64,
    now: u64,
    answer: Result<i64, Seq<char>>,
)
    requires
        0 <= t0 <= i64::MAX - JWT_EXPIRE_SECONDS,
        jwt_token_check(token, jwt_secret_bytes()) matches Ok(c) && c.0 == Some(uid) && c.1 == Some(
            (t0 + JWT_EXPIRE_SECONDS) as i64,
        ),
        now <= t0 + JWT_EXPIRE_SECONDS + EXPIRY_LEEWAY_SECONDS,
        token_check_allows_at(token, now, answer),
    ensures
        answer == Ok::<i64, Seq<char>>(uid),
{
}

/// A token whose MAC is not that of the service's key is refused as such, never as
/// expired: the only answer a check allows is "invalid token signature".
pub proof fn law_forged_token_refused(token: Seq<char>, answer: Result<i64, Seq<char>>)
    requires
        jwt_token_check(token, jwt_secret_bytes()) matches Err(true),
        token_check_allows(token, answer),
    ensures
        answer == bad_signature_answer(),
        answer != expired_answer(),
{
    reveal_strlit("invalid token signature");
    reveal_strlit("token expired");
    assert("invalid token signature"@[0] != "token expired"@[0]);
}

/// A token issued at login checks as its user's, unless it has expired: the answer of
/// any check of a token whose claims are the user's id and a non-negative expiry is
/// that id or "token expired".
pub proof fn law_login_token_checks(token: Seq<char>, uid: i64, exp: i64, answer: Result<i64, Seq<char>>)
    requires
        jwt_token_check(token, jwt_secret_bytes()) matches Ok(c) && c == (Some(uid), Some(exp)),
        token_check_allows(token, answer),
    ensures
        (answer matches Ok(u) && u == uid) || answer == expired_answer(),
{
}

/// The claims of a token issued at time `now` (seconds since the epoch) for user `uid`.
pub fn login_claims(uid: i64, now: i64) -> (r: TokenClaims)
    requires
        now <= i64::MAX - JWT_EXPIRE_SECONDS,
    ensures
        r.uid == uid,
        r.exp == now + JWT_EXPIRE_SECONDS,
{
    TokenClaims { uid, exp: now + JWT_EXPIRE_SECONDS }
}

/// Whether a login with `password` passes the password check of stored user `user`.
pub open spec fn login_accepts(user: UserRow, password: Seq<char>) -> bool {
    bcrypt_verify_result(password, user.password@) == Some(true)
}

/// Logs in with `login_req`, where `user` is the stored user of that name, if any, and
/// `now` the time in seconds since the epoch: the user must exist and the password
/// match the stored hash; the answer then carries the user's id and nickname and a
/// token for the claims of `login_claims`, signed with the service's key. From a time
/// not before the epoch, that token's claims read back as the user's id and the
/// expiry.
pub fn user_login(user: Option<UserRow>, login_req: &LoginReq, now: i64) -> (r: Result<
    LoginResp,
    LoginError,
>)
    requires
        now <= i64::MAX - JWT_EXPIRE_SECONDS,
    ensures
        match user {
            None => r matches Err(LoginError::UserNotFound),
            Some(u) => if login_accepts(u, login_req.password@) {
                r matches Ok(resp) && resp.uid == u.id && resp.nickname == u.nickname
                    && resp.token@ == jwt_encode_result(
                    u.id,
                    (now + JWT_EXPIRE_SECONDS) as i64,
                    jwt_secret_bytes(),
                )
            } else {
                r matches Err(LoginError::WrongPassword)
            },
        },
        r matches Ok(resp) ==> (now >= 0 ==> (jwt_token_check(resp.token@, jwt_secret_bytes())
            matches Ok(c) && c == (Some(resp.uid), Some((now + JWT_EXPIRE_SECONDS) as i64)))),
{
    let user = match user {
        Some(u) => u,
        None => return Err(LoginError::UserNotFound),
    };
    let ok = match bcrypt_verify(&login_req.password, &user.password) {
        Ok(b) => b,
        Err(_) => return Err(LoginError::WrongPassword),
    };
    if !ok {
        return Err(LoginError::WrongPassword);
    }
    let claims = login_claims(user.id, now);
    let secret = jwt_secret();
    let token = match jwt_encode(claims.uid, claims.exp, secret.as_slice()) {
        Ok(t) => t,
        Err(e) => return Err(LoginError::Token(e)),
    };
    Ok(LoginResp { uid: user.id, nickname: user.nickname, token })
}

/// Why a registration fails.
#[derive(Debug)]
pub enum RegisterError {
    /// A user of that name exists.
    UserExists,
    /// The password could not be hashed.
    Hash(bcrypt::BcryptError),
}

/// Calls `bcrypt::BcryptError`'s `to_string`. Nothing is claimed of the text.
#[verifier::external_body]
fn bcrypt_error_text(e: &bcrypt::BcryptError) -> String {
    e.to_string()
}

impl RegisterError {
    /// The text the API shows for the error.
    pub fn message(&self) -> (r: String)
        ensures
            self is UserExists ==> r@ == "User already exists"@,
    {
        match self {
            RegisterError::UserExists => String::from_str("User already exists"),
            RegisterError::Hash(e) => bcrypt_error_text(e),
        }
    }
}

/// Registers the user `req` asks for, where `existing` is the stored user of that
/// name, if any, and `hash` what hashing the request's password gave: a name in use is
/// refused; a failed hash is an error; otherwise the row to store holds the request's
/// name and nickname and the hash in place of the password.
pub fn register_row(existing: Option<UserRow>, req: &RegisterReq, hash: Result<
    String,
    bcrypt::BcryptError,
>) -> (r: Result<NewUser, RegisterError>)
    ensures
        existing is Some ==> r matches Err(RegisterError::UserExists),
        existing is None ==> match hash {
            Ok(h) => r matches Ok(row) && row.username@ == req.username@ && row.nickname@
                == req.nickname@ && row.password@ == h@,
            Err(_) => r matches Err(RegisterError::Hash(_)),
        },
{
    if existing.is_some() {
        return Err(RegisterError::UserExists);
    }
    match hash {
        Ok(h) => Ok(
            NewUser {
                username: req.username.clone(),
                password: h,
                nickname: req.nickname.clone(),
            },
        ),
        Err(e) => Err(RegisterError::Hash(e)),
    }
}

/// Whether the row stored at registration keeps `password`: its hash verifies against
/// it.
pub open spec fn registration_keeps(password: Seq<char>, row: NewUser) -> bool {
    bcrypt_verify_result(password, row.password@) == Some(true)
}

/// Registers the user `req` asks for, where `existing` is the stored user of that
/// name, if any: a name in use is refused before anything is hashed; otherwise the
/// password is hashed with bcrypt's default cost, and the row to store holds the
/// request's name and nickname and a hash that the password verifies against.
pub fn register_user(existing: Option<UserRow>, req: &RegisterReq) -> (r: Result<
    NewUser,
    RegisterError,
>)
    ensures
        existing is Some ==> r matches Err(RegisterError::UserExists),
        r matches Ok(row) ==> row.username@ == req.username@ && row.nickname@ == req.nickname@
            && registration_keeps(req.password@, row),
        existing is None ==> r is Ok || r matches Err(RegisterError::Hash(_)),
{
    if existing.is_some() {
        return Err(RegisterError::UserExists);
    }
    let hash = bcrypt_hash(&req.password);
    register_row(existing, req, hash)
}

/// A user who registered logs in with the same password: the row stored at
/// registration, read back under its id, passes a login's password check, so the login
/// answers with that id and the registered nickname.
pub proof fn law_registered_user_logs_in(password: Seq<char>, row: NewUser, id: i64)
    requires
        registration_keeps(password, row),
    ensures
        login_accepts(UserRow { id, password: row.password, nickname: row.nickname }, password),
{
}

} // verus!
