//! The connection layer of an instant-messaging gateway: the wire format of its
//! packets, the framing codec, per-connection session decisions, the table of
//! online connections and the routing decisions for pushes.

pub mod cache;
pub mod codec;
pub mod config;
pub mod model;
pub mod pb;
pub mod push;
pub mod registry;
pub mod room;
pub mod rpc;
pub mod service;
pub mod session;
pub mod state;
pub mod table;
pub mod text;
pub mod wire;
