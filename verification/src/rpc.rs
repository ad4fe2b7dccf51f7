//! Pushes between gateway nodes: which nodes a push for a user goes to, the request
//! one node sends another, and how the receiving node answers it.

use crate::cache::RouteInfo;
use crate::pb::{packet_bytes, packet_decode, Packet, PacketModel, RemotePushReq, RemotePushResp};
use crate::state::OnlineTable;
use crate::text::{int_decimal, push_i64_decimal};
use vstd::prelude::*;
use vstd::string::StringExecFns;

verus! {

/// A gateway node as the registry lists it.
#[derive(Clone, Debug)]
pub struct NodeInfo {
    pub node_id: String,
    pub listen_addr: String,
    pub grpc_addr: String,
}

/// The push-service addresses of the listed nodes whose id is `route_node_id`, in
/// the order of the list.
pub open spec fn remote_targets_of(route_node_id: Seq<char>, nodes: Seq<NodeInfo>) -> Seq<Seq<char>>
    decreases nodes.len(),
{
    if nodes.len() == 0 {
        Seq::empty()
    } else {
        let rest = remote_targets_of(route_node_id, nodes.drop_last());
        if nodes.last().node_id@ == route_node_id {
            rest.push(nodes.last().grpc_addr@)
        } else {
            rest
        }
    }
}

/// The nodes among `nodes` whose id is exactly `id`, in the order of the list.
pub open spec fn nodes_with_id(id: Seq<char>, nodes: Seq<NodeInfo>) -> Seq<NodeInfo> {
    nodes.filter(|n: NodeInfo| n.node_id@ == id)
}

/// A push goes to exactly the nodes whose id equals the route's node id: the targets
/// are the push-service addresses of the listed nodes with that id, in list order, and
/// of no other node (a node whose id merely starts with it is not one).
pub proof fn law_targets_are_nodes_with_route_id(route_node_id: Seq<char>, nodes: Seq<NodeInfo>)
    ensures
        remote_targets_of(route_node_id, nodes) == nodes_with_id(route_node_id, nodes).map_values(
            |n: NodeInfo| n.grpc_addr@,
        ),
    decreases nodes.len(),
{
    let f = |n: NodeInfo| n.grpc_addr@;
    reveal(Seq::filter);
    if nodes.len() == 0 {
        assert(nodes_with_id(route_node_id, nodes).map_values(f) =~= Seq::<Seq<char>>::empty());
    } else {
        law_targets_are_nodes_with_route_id(route_node_id, nodes.drop_last());
        let sub = nodes_with_id(route_node_id, nodes.drop_last());
        if nodes.last().node_id@ == route_node_id {
            assert(nodes_with_id(route_node_id, nodes) == sub.push(nodes.last()));
            assert(sub.push(nodes.last()).map_values(f) =~= sub.map_values(f).push(
                nodes.last().grpc_addr@,
            ));
        } else {
            assert(nodes_with_id(route_node_id, nodes) == sub);
        }
    }
}

/// The addresses a push for a user whose route names node `route_node_id` is sent
/// to: those of every listed node with that id.
pub fn remote_targets(route_node_id: &String, nodes: &Vec<NodeInfo>) -> (r: Vec<String>)
    ensures
        r@.map_values(|a: String| a@) == remote_targets_of(route_node_id@, nodes@),
        r@.map_values(|a: String| a@) == nodes_with_id(route_node_id@, nodes@).map_values(
            |n: NodeInfo| n.grpc_addr@,
        ),
{
    proof {
        law_targets_are_nodes_with_route_id(route_node_id@, nodes@);
    }
    let mut out: Vec<String> = Vec::new();
    let mut i: usize = 0;
    while i < nodes.len()
        invariant
            i <= nodes@.len(),
            out@.map_values(|a: String| a@) == remote_targets_of(route_node_id@, nodes@.take(i as int)),
        decreases nodes@.len() - i,
    {
        proof {
            assert(nodes@.take(i + 1).drop_last() =~= nodes@.take(i as int));
        }
        if nodes[i].node_id == *route_node_id {
            out.push(nodes[i].grpc_addr.clone());
            proof {
                assert(out@.map_values(|a: String| a@) =~= remote_targets_of(
                    route_node_id@,
                    nodes@.take(i as int),
                ).push(nodes@[i as int].grpc_addr@));
            }
        }
        i = i + 1;
    }
    proof {
        assert(nodes@.take(nodes@.len() as int) =~= nodes@);
    }
    out
}

/// The addresses a push for a user goes to, given the user's route where the cache
/// holds one: those of `remote_targets` for the route's node; none where the cache
/// holds no route, so the user is passed over.
pub fn push_targets(route: &Option<RouteInfo>, nodes: &Vec<NodeInfo>) -> (r: Vec<String>)
    ensures
        match route {
            None => r@.len() == 0,
            Some(ri) => r@.map_values(|a: String| a@) == remote_targets_of(ri.node_id@, nodes@)
                && r@.map_values(|a: String| a@) == nodes_with_id(ri.node_id@, nodes@).map_values(
                |n: NodeInfo| n.grpc_addr@,
            ),
        },
{
    match route {
        Some(ri) => remote_targets(&ri.node_id, nodes),
        None => Vec::new(),
    }
}

/// The request that pushes packet `pkt` to user `uid` on another node.
pub fn remote_push_request(uid: i64, pkt: &Packet) -> (r: RemotePushReq)
    ensures
        r.uid == uid,
        r.packet_bin@ == packet_bytes(pkt@),
{
    RemotePushReq { uid, packet_bin: pkt.encode_to_vec() }
}

/// How a node answers a remote push: the packet to deliver, the connections to
/// deliver it on, and the answer to send back.
#[derive(Debug)]
pub struct RemotePushOutcome {
    pub packet: Packet,
    pub targets: Vec<u64>,
    pub resp: RemotePushResp,
}

/// The answer's text for a user with no connection on this node.
pub open spec fn offline_text(uid: i64) -> Seq<char> {
    "uid "@ + int_decimal(uid as int) + " 当前无在线连接"@
}

/// Answers a remote push for `req.uid` carrying `req.packet_bin`. Where the bytes are
/// not a packet the result is an error. Where the user holds connections here, the
/// packet goes to each of them and the answer is a success with text "ok"; otherwise
/// it goes nowhere and the answer is a failure saying the user is not online.
pub fn serve_remote_push(online: &OnlineTable, req: &RemotePushReq) -> (r: Result<
    RemotePushOutcome,
    prost::DecodeError,
>)
    ensures
        match packet_decode(req.packet_bin@) {
            None => r is Err,
            Some(p) => r matches Ok(o) && o.packet@ == p && (if online@.contains_key(req.uid) {
                o.targets@ == online@[req.uid] && o.resp.success && o.resp.msg@ == "ok"@
            } else {
                o.targets@.len() == 0 && !o.resp.success && o.resp.msg@ == offline_text(req.uid)
            }),
        },
{
    let packet = match Packet::decode(req.packet_bin.as_slice()) {
        Ok(p) => p,
        Err(e) => return Err(e),
    };
    match online.connections(req.uid) {
        Some(targets) => Ok(
            RemotePushOutcome {
                packet,
                targets,
                resp: RemotePushResp { success: true, msg: String::from_str("ok") },
            },
        ),
        None => {
            let mut msg = String::from_str("uid ");
            push_i64_decimal(&mut msg, req.uid);
            msg.append(" 当前无在线连接");
            Ok(
                RemotePushOutcome {
                    packet,
                    targets: Vec::new(),
                    resp: RemotePushResp { success: false, msg },
                },
            )
        },
    }
}

} // verus!
