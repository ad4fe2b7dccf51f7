use rust_im::pb::{Packet, RemotePushReq};
use rust_im::room::{Room, RoomState};
use rust_im::rpc::{remote_push_request, remote_targets, serve_remote_push, NodeInfo};
use rust_im::state::OnlineTable;

#[test]
fn online_table_add_and_remove() {
    let mut t = OnlineTable::new();
    assert!(t.connections(1).is_none());
    t.add_conn(1, 10);
    t.add_conn(1, 11);
    t.add_conn(2, 20);
    assert_eq!(t.connections(1), Some(vec![10, 11]));
    assert!(t.remove_conn(1, 10));
    assert_eq!(t.connections(1), Some(vec![11]));
    assert!(t.remove_conn(1, 11));
    assert!(t.connections(1).is_none());
    assert!(!t.remove_conn(1, 11));
    assert_eq!(t.connections(2), Some(vec![20]));
}

#[test]
fn add_then_remove_restores_the_table() {
    let mut t = OnlineTable::new();
    t.add_conn(5, 1);
    t.add_conn(5, 2);
    t.add_conn(5, 3);
    assert!(t.remove_conn(5, 3));
    assert_eq!(t.connections(5), Some(vec![1, 2]));
    t.add_conn(6, 9);
    assert!(t.remove_conn(6, 9));
    assert!(t.connections(6).is_none());
    assert_eq!(t.connections(5), Some(vec![1, 2]));
}

#[test]
fn removing_a_connection_keeps_the_others_in_order() {
    let mut t = OnlineTable::new();
    t.add_conn(1, 4);
    t.add_conn(1, 7);
    t.add_conn(1, 4);
    t.add_conn(1, 8);
    assert!(t.remove_conn(1, 4));
    assert_eq!(t.connections(1), Some(vec![7, 8]));
    assert!(t.remove_conn(1, 99));
    assert_eq!(t.connections(1), Some(vec![7, 8]));
}

#[test]
fn remote_push_to_online_and_offline_users() {
    let mut t = OnlineTable::new();
    t.add_conn(42, 7);
    t.add_conn(42, 8);
    let pkt = Packet { len: 0, op: 3, body: vec![5, 6] };
    let req = remote_push_request(42, &pkt);
    assert_eq!(req.packet_bin, pkt.encode_to_vec());
    let out = serve_remote_push(&t, &req).unwrap();
    assert_eq!(out.targets, vec![7, 8]);
    assert!(out.resp.success);
    assert_eq!(out.resp.msg, "ok");
    assert_eq!(out.packet.body, vec![5, 6]);

    let req = remote_push_request(-43, &pkt);
    let out = serve_remote_push(&t, &req).unwrap();
    assert!(out.targets.is_empty());
    assert!(!out.resp.success);
    assert_eq!(out.resp.msg, "uid -43 当前无在线连接");

    let bad = RemotePushReq { uid: 42, packet_bin: vec![0x1a, 9] };
    assert!(serve_remote_push(&t, &bad).is_err());
}

#[test]
fn remote_targets_pick_nodes_by_id() {
    let node = |id: &str, addr: &str| NodeInfo {
        node_id: id.to_string(),
        listen_addr: String::new(),
        grpc_addr: addr.to_string(),
    };
    let nodes = vec![node("a", "1.1.1.1:1"), node("b", "2.2.2.2:2"), node("a", "3.3.3.3:3")];
    assert_eq!(remote_targets(&"a".to_string(), &nodes), vec!["1.1.1.1:1", "3.3.3.3:3"]);
    assert!(remote_targets(&"c".to_string(), &nodes).is_empty());
}

#[test]
fn rooms_start_empty() {
    let rooms = RoomState::new();
    assert!(rooms.room_uids(1).is_empty());
    let _room = Room::new(1, "lobby");
}
