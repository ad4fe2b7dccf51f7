use rust_im::cache::RouteInfo;
use rust_im::model::{api_reply, LoginReq, RegisterReq, UserRow};
use rust_im::rpc::{push_targets, NodeInfo};
use rust_im::service::{
    jwt_secret, register_row, register_user, token_verdict, user_login, verify_token,
    RegisterError, TokenFailure, JWT_EXPIRE_SECONDS,
};

fn register_req(name: &str, password: &str, nickname: &str) -> RegisterReq {
    RegisterReq {
        username: name.to_string(),
        password: password.to_string(),
        nickname: nickname.to_string(),
    }
}

fn now_secs() -> i64 {
    std::time::SystemTime::now()
        .duration_since(std::time::UNIX_EPOCH)
        .unwrap()
        .as_secs() as i64
}

#[test]
fn secret_is_the_service_key() {
    assert_eq!(jwt_secret(), b"rust_im_2026".to_vec());
}

#[test]
fn register_refuses_a_name_in_use() {
    let existing = UserRow { id: 1, password: "x".to_string(), nickname: "a".to_string() };
    let err = register_user(Some(existing), &register_req("alice", "pw", "Alice")).unwrap_err();
    assert!(matches!(err, RegisterError::UserExists));
    assert_eq!(err.message(), "User already exists");
}

#[test]
fn register_stores_a_hash_that_verifies() {
    let row = register_user(None, &register_req("alice", "secret-pw", "Alice")).unwrap();
    assert_eq!(row.username, "alice");
    assert_eq!(row.nickname, "Alice");
    assert_ne!(row.password, "secret-pw");
    assert!(bcrypt::verify("secret-pw", &row.password).unwrap());
}

#[test]
fn register_row_keeps_the_hash_given() {
    let req = register_req("bob", "pw", "Bob");
    let row = register_row(None, &req, Ok("$2b$12$hash".to_string())).unwrap();
    assert_eq!(row.username, "bob");
    assert_eq!(row.nickname, "Bob");
    assert_eq!(row.password, "$2b$12$hash");
    let existing = UserRow { id: 2, password: "h".to_string(), nickname: "B".to_string() };
    assert!(matches!(
        register_row(Some(existing), &req, Ok("h".to_string())),
        Err(RegisterError::UserExists)
    ));
}

#[test]
fn register_row_reports_a_failed_hash() {
    let req = register_req("bob", "pw", "Bob");
    let bad = bcrypt::hash("pw", 2).unwrap_err();
    let text = bad.to_string();
    let err = register_row(None, &req, Err(bad)).unwrap_err();
    assert!(matches!(err, RegisterError::Hash(_)));
    assert_eq!(err.message(), text);
}

#[test]
fn registered_user_logs_in_and_token_checks() {
    let row = register_user(None, &register_req("carol", "pw-carol", "Carol")).unwrap();
    let stored = UserRow { id: 42, password: row.password, nickname: row.nickname };
    let login = LoginReq { username: "carol".to_string(), password: "pw-carol".to_string() };
    let resp = user_login(Some(stored), &login, now_secs()).unwrap();
    assert_eq!(resp.uid, 42);
    assert_eq!(resp.nickname, "Carol");
    assert_eq!(verify_token(&resp.token), Ok(42));
}

#[test]
fn token_claims_are_uid_and_expiry() {
    let row = register_user(None, &register_req("dan", "pw", "Dan")).unwrap();
    let stored = UserRow { id: 7, password: row.password, nickname: row.nickname };
    let login = LoginReq { username: "dan".to_string(), password: "pw".to_string() };
    let now = now_secs();
    let resp = user_login(Some(stored), &login, now).unwrap();
    let mut validation = jsonwebtoken::Validation::default();
    validation.validate_exp = true;
    let data = jsonwebtoken::decode::<serde_json::Value>(
        &resp.token,
        &jsonwebtoken::DecodingKey::from_secret(b"rust_im_2026"),
        &validation,
    )
    .unwrap();
    assert_eq!(data.claims["uid"].as_i64(), Some(7));
    assert_eq!(data.claims["exp"].as_i64(), Some(now + JWT_EXPIRE_SECONDS));
}

#[test]
fn expired_token_is_refused() {
    let row = register_user(None, &register_req("erin", "pw", "Erin")).unwrap();
    let stored = UserRow { id: 8, password: row.password, nickname: row.nickname };
    let login = LoginReq { username: "erin".to_string(), password: "pw".to_string() };
    let resp = user_login(Some(stored), &login, 0).unwrap();
    assert_eq!(verify_token(&resp.token), Err("token expired".to_string()));
}

fn token_with_key(key: &[u8], uid: i64, exp: i64) -> String {
    let mut claims = serde_json::Map::new();
    claims.insert("uid".to_string(), serde_json::Value::from(uid));
    claims.insert("exp".to_string(), serde_json::Value::from(exp));
    jsonwebtoken::encode(
        &jsonwebtoken::Header::default(),
        &serde_json::Value::Object(claims),
        &jsonwebtoken::EncodingKey::from_secret(key),
    )
    .unwrap()
}

#[test]
fn token_signed_with_the_service_key_checks() {
    let token = token_with_key(b"rust_im_2026", 11, now_secs() + 3600);
    assert_eq!(verify_token(&token), Ok(11));
}

#[test]
fn forged_token_is_refused() {
    let token = token_with_key(b"another-key", 11, now_secs() + 3600);
    assert_eq!(verify_token(&token), Err("invalid token signature".to_string()));
}

#[test]
fn malformed_token_is_invalid() {
    let answer = verify_token("not-a-token").unwrap_err();
    assert!(answer.starts_with("token invalid: "), "{answer}");
}

#[test]
fn token_without_uid_is_invalid() {
    let mut claims = serde_json::Map::new();
    claims.insert("exp".to_string(), serde_json::Value::from(now_secs() + 3600));
    let token = jsonwebtoken::encode(
        &jsonwebtoken::Header::default(),
        &serde_json::Value::Object(claims),
        &jsonwebtoken::EncodingKey::from_secret(b"rust_im_2026"),
    )
    .unwrap();
    assert_eq!(
        verify_token(&token),
        Err("token invalid: JSON error: missing field `uid`".to_string())
    );
}

#[test]
fn token_verdicts() {
    assert_eq!(token_verdict(Ok((Some(3), Some(9)))), Ok(3));
    assert_eq!(
        token_verdict(Ok((None, Some(9)))),
        Err("token invalid: JSON error: missing field `uid`".to_string())
    );
    assert_eq!(
        token_verdict(Ok((Some(3), None))),
        Err("token invalid: JSON error: missing field `exp`".to_string())
    );
    assert_eq!(token_verdict(Err(TokenFailure::Expired)), Err("token expired".to_string()));
    assert_eq!(
        token_verdict(Err(TokenFailure::BadSignature)),
        Err("invalid token signature".to_string())
    );
    assert_eq!(
        token_verdict(Err(TokenFailure::Other("bad".to_string()))),
        Err("token invalid: bad".to_string())
    );
}

#[test]
fn api_replies() {
    let ok = api_reply::<i64>(Ok(5));
    assert_eq!((ok.status, ok.code, ok.msg.as_str(), ok.data), (200, 0, "success", Some(5)));
    let err = api_reply::<i64>(Err("User not found".to_string()));
    assert_eq!((err.status, err.code, err.msg.as_str(), err.data), (400, -1, "User not found", None));
}

fn node(id: &str, grpc: &str) -> NodeInfo {
    NodeInfo { node_id: id.to_string(), listen_addr: String::new(), grpc_addr: grpc.to_string() }
}

#[test]
fn push_targets_follow_the_route() {
    let nodes = vec![node("n1", "a:1"), node("n2", "b:2"), node("n1", "c:3")];
    let route = RouteInfo {
        node_id: "n1".to_string(),
        listen_addr: String::new(),
        grpc_addr: "a:1".to_string(),
    };
    assert_eq!(push_targets(&Some(route), &nodes), vec!["a:1".to_string(), "c:3".to_string()]);
}

#[test]
fn push_targets_skip_a_user_without_route() {
    let nodes = vec![node("n1", "a:1")];
    assert!(push_targets(&None, &nodes).is_empty());
}

#[test]
fn forged_expired_token_is_a_signature_failure() {
    let token = token_with_key(b"another-key", 11, 1000);
    assert_eq!(verify_token(&token), Err("invalid token signature".to_string()));
}

#[test]
fn registered_user_logs_in_with_id_and_nickname() {
    let row = register_user(None, &register_req("fay", "pw-fay", "Fay")).unwrap();
    let stored = UserRow { id: 77, password: row.password, nickname: row.nickname };
    let login = LoginReq { username: "fay".to_string(), password: "pw-fay".to_string() };
    let resp = user_login(Some(stored), &login, 0).unwrap();
    assert_eq!((resp.uid, resp.nickname.as_str()), (77, "Fay"));
}
