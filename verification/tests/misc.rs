use rust_im::cache::{node_heartbeat_key, route_info_for, user_route_key, CacheType};
use rust_im::config::{
    AppConfig, CometConfig, KafkaConfig, RedisConfig, RegistryConfig, RoomCacheConfig,
};
use rust_im::model::{LoginReq, UserRow};
use rust_im::push::{push_job, PushJobDecision};
use rust_im::pb::{Message, Op};
use rust_im::registry::{build_node_info, lease_ttl, registry_key, split_endpoints};
use rust_im::service::{
    login_claims, token_failure_text, user_login, LoginError, TokenFailure, JWT_EXPIRE_SECONDS,
};
use rust_im::text::i64_to_decimal;

fn config(heartbeat_ms: u64) -> AppConfig {
    AppConfig {
        comet: CometConfig {
            node_id: "n1".to_string(),
            listen_addr: "0.0.0.0:8090".to_string(),
            grpc_addr: "127.0.0.1:8093".to_string(),
            heartbeat_ms,
            enable_distributed: false,
        },
        redis: RedisConfig {
            addr: "redis://127.0.0.1/".to_string(),
            password: None,
            db: 0,
            pool_size: 4,
            online_ttl_sec: 60,
        },
        kafka: KafkaConfig {
            brokers: "127.0.0.1:9092".to_string(),
            up_topic: "up".to_string(),
            push_task_topic: "im-push".to_string(),
            queue_buffering_max_messages: 100,
        },
        registry: RegistryConfig {
            endpoints: "a:1,b:2".to_string(),
            heartbeat_interval_ms: 5000,
            service_prefix: "/comet/".to_string(),
        },
        room_cache: RoomCacheConfig {
            max_local_room: 10,
            sync_redis_interval_sec: 5,
            auto_clear_empty_room: true,
        },
    }
}

#[test]
fn heartbeat_timeout_is_two_intervals() {
    let cfg = config(30000);
    assert_eq!(cfg.heartbeat_timeout(), std::time::Duration::from_millis(60000));
    assert_eq!(rust_im::config::heartbeat_timeout_of(7).as_millis(), 14);
}

#[test]
fn env_node_id_overrides() {
    let mut cfg = config(1);
    cfg.with_env_node_id(None);
    assert_eq!(cfg.comet.node_id, "n1");
    cfg.with_env_node_id(Some("n9".to_string()));
    assert_eq!(cfg.comet.node_id, "n9");
    assert_eq!(cfg.comet.grpc_addr, "127.0.0.1:8093");
}

#[test]
fn decimal_text() {
    assert_eq!(i64_to_decimal(0), "0");
    assert_eq!(i64_to_decimal(10002), "10002");
    assert_eq!(i64_to_decimal(-5), "-5");
    assert_eq!(i64_to_decimal(i64::MIN), i64::MIN.to_string());
    assert_eq!(i64_to_decimal(i64::MAX), i64::MAX.to_string());
}

#[test]
fn cache_keys() {
    assert_eq!(user_route_key(10002), "users:route:10002");
    assert_eq!(user_route_key(-1), "users:route:-1");
    assert_eq!(node_heartbeat_key("n1"), "comet:node:n1");
    let r = route_info_for("n1", "127.0.0.1:8093");
    assert_eq!(r.node_id, "n1");
    assert_eq!(r.grpc_addr, "127.0.0.1:8093");
    assert_eq!(r.listen_addr, "");
    assert_eq!(CacheType::Redis, CacheType::Redis);
}

#[test]
fn registry_records() {
    assert_eq!(registry_key("/comet/", "n1"), "/comet/n1");
    assert_eq!(
        build_node_info("n1"),
        r#"{"node_id":"n1","listen_addr":"","grpc_addr":""}"#
    );
    assert_eq!(lease_ttl(5000), 15);
    assert_eq!(lease_ttl(999), 0);
    assert_eq!(lease_ttl(u64::MAX), (u64::MAX / 1000) as i64 * 3);
}

#[test]
fn endpoints_split_on_commas() {
    assert_eq!(split_endpoints("a:1,b:2"), vec!["a:1", "b:2"]);
    assert_eq!(split_endpoints(""), vec![""]);
    assert_eq!(split_endpoints("a,"), vec!["a", ""]);
    assert_eq!(split_endpoints(",é,"), vec!["", "é", ""]);
    assert_eq!(split_endpoints("x"), "x".split(',').collect::<Vec<_>>());
}

#[test]
fn push_jobs() {
    assert!(matches!(push_job(None), PushJobDecision::Stop));
    assert!(matches!(push_job(Some(&[0x0a][..])), PushJobDecision::Skip(_)));
    let m = Message { from_uid: 1, to_uid_list: vec![4, 5], content: "c".to_string(), room_id: 0 };
    let bytes = m.encode_to_vec();
    match push_job(Some(&bytes[..])) {
        PushJobDecision::Push { uids, packet } => {
            assert_eq!(uids, vec![4, 5]);
            assert_eq!(packet.op, Op::PushMsg.code());
            assert_eq!(packet.body, bytes);
            assert_eq!(packet.len, 0);
        }
        other => panic!("unexpected: {:?}", other),
    }
}

#[test]
fn login_checks_user_and_password() {
    let req = LoginReq { username: "u".to_string(), password: "secret".to_string() };
    assert!(matches!(user_login(None, &req, 0), Err(LoginError::UserNotFound)));
    let hash = bcrypt::hash("secret", 4).unwrap();
    let row = UserRow { id: 3, password: hash.clone(), nickname: "nick".to_string() };
    let resp = user_login(Some(row), &req, 1_700_000_000).unwrap();
    assert_eq!(resp.uid, 3);
    assert_eq!(resp.nickname, "nick");
    assert_eq!(resp.token.split('.').count(), 3);
    let wrong = LoginReq { username: "u".to_string(), password: "nope".to_string() };
    let row = UserRow { id: 3, password: hash, nickname: "nick".to_string() };
    let err = user_login(Some(row), &wrong, 0).unwrap_err();
    assert!(matches!(err, LoginError::WrongPassword));
    assert_eq!(err.message(), "User wrong password");
    let row = UserRow { id: 3, password: "not a hash".to_string(), nickname: String::new() };
    assert!(matches!(user_login(Some(row), &req, 0), Err(LoginError::WrongPassword)));
    assert_eq!(LoginError::UserNotFound.message(), "User not found");
}

#[test]
fn token_claims_expire_after_a_week() {
    let c = login_claims(9, 100);
    assert_eq!(c.uid, 9);
    assert_eq!(c.exp, 100 + 7 * 24 * 3600);
    assert_eq!(JWT_EXPIRE_SECONDS, 604800);
}

#[test]
fn split_then_join_gives_back_the_text() {
    for s in ["a:1,b:2", "", ",", "x,,y", "étoile,ß"] {
        assert_eq!(split_endpoints(s).join(","), s);
    }
}

#[test]
fn token_failure_texts() {
    assert_eq!(token_failure_text(&TokenFailure::Expired), "token expired");
    assert_eq!(token_failure_text(&TokenFailure::BadSignature), "invalid token signature");
    assert_eq!(
        token_failure_text(&TokenFailure::Other("InvalidToken".to_string())),
        "token invalid: InvalidToken"
    );
}
