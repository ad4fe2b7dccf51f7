use rust_im::pb::{
    HandshakeReq, HandshakeResp, Message, Op, Packet, RemotePushReq, RemotePushResp,
};

#[test]
fn op_codes_round_trip() {
    for op in [Op::Handshake, Op::Heartbeat, Op::SendMsg, Op::PushMsg, Op::Kick] {
        assert_eq!(Op::from_code(op.code()), Some(op));
    }
    assert_eq!(Op::Handshake.code(), 0);
    assert_eq!(Op::PushMsg.code(), 3);
    assert_eq!(Op::from_code(99), None);
}

#[test]
fn packet_bytes_are_exact() {
    let p = Packet { len: 300, op: 2, body: vec![7] };
    assert_eq!(p.encode_to_vec(), vec![0x08, 0xAC, 0x02, 0x10, 2, 0x1a, 1, 7]);
    assert_eq!(p.encoded_len(), 8);
    let d = Packet { len: 0, op: 0, body: vec![] };
    assert!(d.encode_to_vec().is_empty());
}

#[test]
fn packet_round_trip() {
    let p = Packet { len: u32::MAX, op: 4, body: (0u8..=255).collect() };
    let q = Packet::decode(&p.encode_to_vec()).unwrap();
    assert_eq!(q.len, p.len);
    assert_eq!(q.op, p.op);
    assert_eq!(q.body, p.body);
}

#[test]
fn packet_last_field_wins_and_unknown_fields_are_skipped() {
    // len=1, an unknown varint field 9, len=2, an unknown fixed32 field 10.
    let bytes = [0x08, 1, 0x48, 0x7f, 0x08, 2, 0x55, 1, 2, 3, 4];
    let p = Packet::decode(&bytes).unwrap();
    assert_eq!(p.len, 2);
    assert_eq!(p.op, 0);
    assert!(p.body.is_empty());
}

#[test]
fn packet_len_is_cut_to_32_bits() {
    // varint of 2^32 + 5
    let bytes = [0x08, 0x85, 0x80, 0x80, 0x80, 0x10];
    let p = Packet::decode(&bytes).unwrap();
    assert_eq!(p.len, 5);
}

#[test]
fn packet_decode_errors() {
    // body length runs past the end
    assert!(Packet::decode(&[0x1a, 5, 1, 2]).is_err());
    // wrong wire type for a known field
    assert!(Packet::decode(&[0x0a, 0]).is_err());
    // tag 0
    assert!(Packet::decode(&[0x00, 1]).is_err());
    // wire type 6
    assert!(Packet::decode(&[0x0e, 1]).is_err());
    // unfinished varint
    assert!(Packet::decode(&[0x08, 0x80]).is_err());
    // an end-group key with no group
    assert!(Packet::decode(&[0x0c]).is_err());
}

#[test]
fn handshake_req_round_trip() {
    let m = HandshakeReq { uid: -7, token: "tök".to_string(), device_id: "d1".to_string() };
    let b = m.encode_to_vec();
    let n = HandshakeReq::decode(&b).unwrap();
    assert_eq!(n.uid, -7);
    assert_eq!(n.token, "tök");
    assert_eq!(n.device_id, "d1");
    // a negative int64 takes ten bytes
    assert_eq!(b[0], 0x08);
    assert_eq!(b.len(), 1 + 10 + 2 + 4 + 2 + 2);
}

#[test]
fn handshake_req_rejects_bad_utf8() {
    assert!(HandshakeReq::decode(&[0x12, 2, 0xff, 0xfe]).is_err());
}

#[test]
fn handshake_resp_round_trip() {
    let m = HandshakeResp { code: -1, msg: "invalid token".to_string(), heartbeat_ms: 0 };
    let n = HandshakeResp::decode(&m.encode_to_vec()).unwrap();
    assert_eq!(n.code, -1);
    assert_eq!(n.msg, "invalid token");
    assert_eq!(n.heartbeat_ms, 0);
}

#[test]
fn message_round_trip_packed() {
    let m = Message {
        from_uid: 10001,
        to_uid_list: vec![10002, -3, 0],
        content: "你好".to_string(),
        room_id: 9,
    };
    let b = m.encode_to_vec();
    let n = Message::decode(&b).unwrap();
    assert_eq!(n.from_uid, 10001);
    assert_eq!(n.to_uid_list, vec![10002, -3, 0]);
    assert_eq!(n.content, "你好");
    assert_eq!(n.room_id, 9);
}

#[test]
fn message_accepts_unpacked_and_appends() {
    // to_uid_list as two single varints, then a packed run of one.
    let bytes = [0x10, 5, 0x10, 6, 0x12, 1, 7];
    let n = Message::decode(&bytes).unwrap();
    assert_eq!(n.to_uid_list, vec![5, 6, 7]);
}

#[test]
fn message_packed_run_overrunning_its_length_is_an_error() {
    // packed length 1 but the varint inside takes two bytes
    assert!(Message::decode(&[0x12, 1, 0x80, 0x01]).is_err());
}

#[test]
fn remote_push_messages_round_trip() {
    let r = RemotePushReq { uid: 42, packet_bin: vec![1, 2, 3] };
    let s = RemotePushReq::decode(&r.encode_to_vec()).unwrap();
    assert_eq!(s.uid, 42);
    assert_eq!(s.packet_bin, vec![1, 2, 3]);
    let a = RemotePushResp { success: true, msg: "ok".to_string() };
    let b = a.encode_to_vec();
    assert_eq!(b, vec![0x08, 1, 0x12, 2, b'o', b'k']);
    let c = RemotePushResp::decode(&b).unwrap();
    assert!(c.success);
    assert_eq!(c.msg, "ok");
}
