//! Push jobs taken from the message queue: which users a job addresses and the packet
//! they are sent.

use crate::pb::{im_message_bytes, im_message_decode, op_code, Message, Op, Packet, PacketModel};
use vstd::prelude::*;

verus! {

/// What the push consumer does with one record of the queue.
#[derive(Debug)]
pub enum PushJobDecision {
    /// The record has no payload: the consumer stops with an error.
    Stop,
    /// The payload is not a message: the record is skipped.
    Skip(prost::DecodeError),
    /// Push `packet` to each of `uids`.
    Push { uids: Vec<i64>, packet: Packet },
}

/// The packet that carries message `m` to its receivers.
pub open spec fn push_packet_of(m: crate::pb::MessageModel) -> PacketModel {
    PacketModel { op: op_code(Op::PushMsg), body: im_message_bytes(m), len: 0 }
}

/// Decides what to do with a queue record whose payload is `payload`: a message is
/// pushed, re-encoded in a push packet, to every user of its receiver list.
pub fn push_job(payload: Option<&[u8]>) -> (r: PushJobDecision)
    ensures
        match payload {
            None => r is Stop,
            Some(p) => match im_message_decode(p@) {
                None => r is Skip,
                Some(m) => r matches PushJobDecision::Push { uids, packet } && uids@
                    == m.to_uid_list && packet@ == push_packet_of(m),
            },
        },
{
    let payload = match payload {
        Some(p) => p,
        None => return PushJobDecision::Stop,
    };
    match Message::decode(payload) {
        Ok(m) => {
            let packet = Packet { op: Op::PushMsg.code(), body: m.encode_to_vec(), len: 0 };
            PushJobDecision::Push { uids: m.to_uid_list, packet }
        },
        Err(e) => PushJobDecision::Skip(e),
    }
}

} // verus!
