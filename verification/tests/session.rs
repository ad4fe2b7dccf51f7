use rust_im::pb::{HandshakeReq, HandshakeResp, Message, Op, Packet};
use rust_im::session::{process_in_packet, Session, SessionAction, TcpEvent, WsEvent};

fn handshake_packet(uid: i64) -> Packet {
    let req = HandshakeReq { uid, token: "t".to_string(), device_id: "d".to_string() };
    Packet { op: Op::Handshake.code(), body: req.encode_to_vec(), len: 0 }
}

#[test]
fn handshake_registers_and_answers() {
    let mut uid = None;
    let out = process_in_packet(&handshake_packet(10002), &mut uid, 30000).unwrap();
    assert_eq!(uid, Some(10002));
    assert_eq!(out.register, Some(10002));
    assert!(out.job.is_none());
    let reply = out.reply.unwrap();
    assert_eq!(reply.op, Op::Handshake.code());
    assert_eq!(reply.len, 0);
    let resp = HandshakeResp::decode(&reply.body).unwrap();
    assert_eq!(resp.code, 0);
    assert_eq!(resp.msg, "ok");
    assert_eq!(resp.heartbeat_ms, 30000);
}

#[test]
fn handshake_heartbeat_wraps_like_the_millis_cast() {
    let mut uid = None;
    let hb = u64::MAX / 2;
    let out = process_in_packet(&handshake_packet(1), &mut uid, hb).unwrap();
    let resp = HandshakeResp::decode(&out.reply.unwrap().body).unwrap();
    assert_eq!(resp.heartbeat_ms, ((hb as u128 * 2) as i64) / 2);
}

#[test]
fn handshake_with_bad_body_fails_and_keeps_user() {
    let mut uid = Some(5);
    let pkt = Packet { op: Op::Handshake.code(), body: vec![0x08], len: 0 };
    assert!(process_in_packet(&pkt, &mut uid, 1000).is_err());
    assert_eq!(uid, Some(5));
}

#[test]
fn heartbeat_is_answered() {
    let mut uid = Some(3);
    let pkt = Packet { op: Op::Heartbeat.code(), body: vec![], len: 0 };
    let out = process_in_packet(&pkt, &mut uid, 1000).unwrap();
    let reply = out.reply.unwrap();
    assert_eq!(reply.op, Op::Heartbeat.code());
    assert!(reply.body.is_empty());
    assert!(out.register.is_none());
    assert_eq!(uid, Some(3));
}

#[test]
fn send_msg_becomes_a_job() {
    let mut uid = Some(1);
    let m = Message { from_uid: 1, to_uid_list: vec![2, 3], content: "hi".to_string(), room_id: 0 };
    let pkt = Packet { op: Op::SendMsg.code(), body: m.encode_to_vec(), len: 0 };
    let out = process_in_packet(&pkt, &mut uid, 1000).unwrap();
    let job = out.job.unwrap();
    assert_eq!(job.to_uid_list, vec![2, 3]);
    assert_eq!(job.content, "hi");
    assert!(out.reply.is_none());
}

#[test]
fn other_ops_are_ignored() {
    let mut uid = None;
    for op in [Op::PushMsg.code(), Op::Kick.code(), 77] {
        let pkt = Packet { op, body: vec![0xff], len: 0 };
        let out = process_in_packet(&pkt, &mut uid, 1000).unwrap();
        assert!(out.reply.is_none() && out.register.is_none() && out.job.is_none());
    }
    assert_eq!(uid, None);
}

#[test]
fn tcp_session_times_out_and_unregisters() {
    let mut s = Session::new(100, 0);
    match s.on_tcp_event(TcpEvent::Inbound(handshake_packet(9)), 50, 1000) {
        SessionAction::Handle(o) => assert_eq!(o.register, Some(9)),
        other => panic!("unexpected: {:?}", other),
    }
    assert_eq!(s.last_heard, 50);
    assert!(matches!(s.on_tcp_event(TcpEvent::Tick, 150, 1000), SessionAction::Continue));
    assert!(matches!(s.on_tcp_event(TcpEvent::Tick, 151, 1000), SessionAction::Close(Some(9))));
    assert!(matches!(s.on_tcp_event(TcpEvent::Tick, 10, 1000), SessionAction::Continue));
}

#[test]
fn tcp_session_closes_on_stream_events() {
    let mut s = Session::new(100, 0);
    assert!(matches!(s.on_tcp_event(TcpEvent::StreamEnded, 1, 1000), SessionAction::Close(None)));
    assert!(matches!(s.on_tcp_event(TcpEvent::ReadFailed, 1, 1000), SessionAction::Close(None)));
    assert!(matches!(s.on_tcp_event(TcpEvent::SendFailed, 1, 1000), SessionAction::Close(None)));
    assert!(matches!(s.on_tcp_event(TcpEvent::OutboundClosed, 1, 1000), SessionAction::Close(None)));
    let p = Packet { op: 3, body: vec![1], len: 0 };
    match s.on_tcp_event(TcpEvent::Outbound(p), 1, 1000) {
        SessionAction::Write(q) => assert_eq!(q.body, vec![1]),
        other => panic!("unexpected: {:?}", other),
    }
}

#[test]
fn tcp_session_fails_on_bad_handshake() {
    let mut s = Session::new(100, 0);
    let pkt = Packet { op: Op::Handshake.code(), body: vec![0x12, 9], len: 0 };
    assert!(matches!(s.on_tcp_event(TcpEvent::Inbound(pkt), 5, 1000), SessionAction::Fail(_)));
    assert_eq!(s.uid, None);
    assert_eq!(s.last_heard, 5);
}

#[test]
fn ws_session_reads_packets() {
    let mut s = Session::new(1000, 0);
    let data = handshake_packet(77).encode_to_vec();
    match s.on_ws_event(WsEvent::Binary(data), 20, 500) {
        SessionAction::Handle(o) => {
            let resp = HandshakeResp::decode(&o.reply.unwrap().body).unwrap();
            assert_eq!(resp.heartbeat_ms, 500);
        }
        other => panic!("unexpected: {:?}", other),
    }
    assert_eq!(s.uid, Some(77));
    assert!(matches!(s.on_ws_event(WsEvent::Other, 30, 500), SessionAction::Continue));
    assert!(matches!(s.on_ws_event(WsEvent::Binary(vec![0x0a]), 40, 500), SessionAction::Fail(_)));
    assert_eq!(s.last_heard, 40);
    assert!(matches!(s.on_ws_event(WsEvent::Tick, 1041, 500), SessionAction::Close(Some(77))));
    assert!(matches!(s.on_ws_event(WsEvent::Closed, 50, 500), SessionAction::Close(Some(77))));
}

#[test]
fn heartbeat_answer_needs_no_interval_bound() {
    let mut uid = Some(5);
    let pkt = Packet { op: Op::Heartbeat.code(), body: Vec::new(), len: 0 };
    let out = process_in_packet(&pkt, &mut uid, u64::MAX).unwrap();
    assert_eq!(out.reply.unwrap().op, Op::Heartbeat.code());
    assert_eq!(uid, Some(5));
}
