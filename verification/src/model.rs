//! The requests and answers of the user API.

use vstd::prelude::*;
use vstd::string::StringExecFns;

verus! {

/// A login request.
#[derive(Clone, Debug)]
pub struct LoginReq {
    pub username: String,
    pub password: String,
}

/// The answer to a login.
#[derive(Clone, Debug)]
pub struct LoginResp {
    pub uid: i64,
    pub nickname: String,
    pub token: String,
}

/// A registration request.
#[derive(Clone, Debug)]
pub struct RegisterReq {
    pub username: String,
    pub password: String,
    pub nickname: String,
}

/// The answer to a registration: the new user's id.
#[derive(Clone, Debug)]
pub struct RegisterRsp {
    pub id: i64,
}

/// The claims of a login token: the user and the expiry, in seconds since the epoch.
#[derive(Clone, Copy, Debug, PartialEq, Eq, Structural)]
pub struct TokenClaims {
    pub uid: i64,
    pub exp: i64,
}

/// What a login needs of a stored user: the id, the password hash and the nickname.
#[derive(Clone, Debug)]
pub struct UserRow {
    pub id: i64,
    pub password: String,
    pub nickname: String,
}

/// A user to store: the name, the password's hash and the nickname.
#[derive(Clone, Debug)]
pub struct NewUser {
    pub username: String,
    pub password: String,
    pub nickname: String,
}

/// The API's answer to a request: the HTTP status, the code, the text and the data.
#[derive(Clone, Debug)]
pub struct ApiReply<T> {
    pub status: u16,
    pub code: i32,
    pub msg: String,
    pub data: Option<T>,
}

/// The API's answer to the outcome of a request: a success is status 200, code 0,
/// text "success" and the data; a failure is status 400, code -1, the failure's text
/// and no data.
pub fn api_reply<T>(outcome: Result<T, String>) -> (r: ApiReply<T>)
    ensures
        match outcome {
            Ok(d) => r.status == 200 && r.code == 0 && r.msg@ == "success"@ && r.data == Some(d),
            Err(m) => r.status == 400 && r.code == -1 && r.msg@ == m@ && r.data is None,
        },
{
    match outcome {
        Ok(d) => ApiReply { status: 200, code: 0, msg: String::from_str("success"), data: Some(d) },
        Err(m) => ApiReply { status: 400, code: -1, msg: m, data: None },
    }
}

} // verus!
