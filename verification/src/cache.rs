//! What the gateway keeps in the shared cache: the route of each online user and the
//! heartbeat of each node.

use crate::text::{int_decimal, push_i64_decimal};
use vstd::prelude::*;
use vstd::string::StringExecFns;

verus! {

/// The kinds of shared cache.
#[derive(Clone, Copy, Debug, PartialEq, Eq, Structural)]
pub enum CacheType {
    Redis,
}

/// Where an online user is connected: the node and its addresses.
#[derive(Clone, Debug)]
pub struct RouteInfo {
    pub node_id: String,
    pub listen_addr: String,
    pub grpc_addr: String,
}

/// The key of the route of user `uid`.
pub fn user_route_key(uid: i64) -> (r: String)
    ensures
        r@ == "users:route:"@ + int_decimal(uid as int),
{
    let mut s = String::from_str("users:route:");
    push_i64_decimal(&mut s, uid);
    s
}

/// The key of the heartbeat of node `node_id`.
pub fn node_heartbeat_key(node_id: &str) -> (r: String)
    ensures
        r@ == "comet:node:"@ + node_id@,
{
    let mut s = String::from_str("comet:node:");
    s.append(node_id);
    s
}

/// The route recorded for a user connected to node `node_id`, whose push service
/// listens on `grpc_addr`; the listen address is left empty.
pub fn route_info_for(node_id: &str, grpc_addr: &str) -> (r: RouteInfo)
    ensures
        r.node_id@ == node_id@,
        r.grpc_addr@ == grpc_addr@,
        r.listen_addr@ == Seq::<char>::empty(),
{
    RouteInfo {
        node_id: String::from_str(node_id),
        grpc_addr: String::from_str(grpc_addr),
        listen_addr: String::new(),
    }
}

} // verus!
