//! What a client connection does with each packet and event: the decisions of a
//! session, from the handshake to the close.

use crate::pb::{
    handshake_req_decode, handshake_resp_bytes, im_message_decode, op_code, HandshakeReq,
    HandshakeResp, HandshakeRespModel, Message, MessageModel, Op, Packet, PacketModel,
    packet_decode,
};
use vstd::prelude::*;
use vstd::string::StringExecFns;

verus! {

/// What the gateway does in answer to one packet from a client.
#[derive(Debug)]
pub struct InboundOutcome {
    /// A user whose connection is to be registered as online.
    pub register: Option<i64>,
    /// A packet to send back to the client.
    pub reply: Option<Packet>,
    /// A message to hand to the message queue.
    pub job: Option<Message>,
}

/// What the gateway does in answer to one packet, as a value.
pub struct OutcomeModel {
    pub register: Option<i64>,
    pub reply: Option<PacketModel>,
    pub job: Option<MessageModel>,
}

impl View for InboundOutcome {
    type V = OutcomeModel;

    open spec fn view(&self) -> OutcomeModel {
        OutcomeModel {
            register: self.register,
            reply: match self.reply {
                Some(p) => Some(p@),
                None => None,
            },
            job: match self.job {
                Some(m) => Some(m@),
                None => None,
            },
        }
    }
}

/// What the gateway does in answer to packet `pkt` on a node whose heartbeat is
/// `heartbeat_ms`; `None` where the packet's body is not the message its operation
/// calls for.
pub open spec fn inbound_result(pkt: PacketModel, heartbeat_ms: u64) -> Option<OutcomeModel> {
    if pkt.op == op_code(Op::Handshake) {
        match handshake_req_decode(pkt.body) {
            Some(req) => Some(
                OutcomeModel {
                    register: Some(req.uid),
                    reply: Some(handshake_accepted(heartbeat_ms)),
                    job: None,
                },
            ),
            None => None,
        }
    } else if pkt.op == op_code(Op::Heartbeat) {
        Some(OutcomeModel { register: None, reply: Some(heartbeat_reply()), job: None })
    } else if pkt.op == op_code(Op::SendMsg) {
        match im_message_decode(pkt.body) {
            Some(m) => Some(OutcomeModel { register: None, reply: None, job: Some(m) }),
            None => None,
        }
    } else {
        Some(OutcomeModel { register: None, reply: None, job: None })
    }
}

/// The user a session holds after a packet: the user of an accepted handshake, else
/// the one it held.
pub open spec fn session_uid_after(uid: Option<i64>, result: Option<OutcomeModel>) -> Option<i64> {
    match result {
        Some(o) => match o.register {
            Some(u) => Some(u),
            None => uid,
        },
        None => uid,
    }
}

/// The heartbeat interval a handshake answer announces for a node whose heartbeat is
/// `heartbeat_ms`: the timeout in milliseconds, taken as an `i64`, halved with
/// truncation toward zero.
pub open spec fn handshake_heartbeat_ms(heartbeat_ms: u64) -> i64 {
    let t = 2 * heartbeat_ms;
    if t <= i64::MAX {
        (t / 2) as i64
    } else {
        (-((0x1_0000_0000_0000_0000 - t) / 2)) as i64
    }
}

/// The answer to an accepted handshake.
pub open spec fn handshake_accepted(heartbeat_ms: u64) -> PacketModel {
    PacketModel {
        op: op_code(Op::Handshake),
        body: handshake_resp_bytes(
            HandshakeRespModel {
                code: 0,
                msg: "ok"@,
                heartbeat_ms: handshake_heartbeat_ms(heartbeat_ms),
            },
        ),
        len: 0,
    }
}

/// Whether the answer to `pkt` announces the heartbeat interval: it is a handshake
/// whose body is a request.
pub open spec fn announces_heartbeat(pkt: PacketModel) -> bool {
    pkt.op == op_code(Op::Handshake) && handshake_req_decode(pkt.body) is Some
}

/// The answer to a heartbeat.
pub open spec fn heartbeat_reply() -> PacketModel {
    PacketModel { op: op_code(Op::Heartbeat), body: Seq::empty(), len: 0 }
}

/// Checks a client's token. Every token is accepted.
fn verify_token(_uid: i64, _token: &String) -> (r: bool)
    ensures
        r,
{
    true
}

fn heartbeat_for_handshake(heartbeat_ms: u64) -> (r: i64)
    requires
        heartbeat_ms <= u64::MAX / 2,
    ensures
        r == handshake_heartbeat_ms(heartbeat_ms),
{
    let t: u64 = heartbeat_ms * 2;
    if t <= 0x7fff_ffff_ffff_ffffu64 {
        (t / 2) as i64
    } else {
        let neg: u64 = (u64::MAX - t) + 1;
        let half: u64 = neg / 2;
        let h: i64 = half as i64;
        -h
    }
}

/// Handles one packet from a client whose session holds user `uid` (if the client
/// has shaken hands). `heartbeat_ms` is the node's heartbeat interval.
///
/// A handshake whose body is a `HandshakeReq` makes the session the request's user's,
/// registers the connection and answers with code 0, text "ok" and the heartbeat
/// interval. A heartbeat is answered with an empty heartbeat packet. A message is
/// handed to the message queue. Other packets are ignored. A body that is not the
/// message its operation calls for is an error.
pub fn process_in_packet(pkt: &Packet, uid: &mut Option<i64>, heartbeat_ms: u64) -> (r: Result<
    InboundOutcome,
    prost::DecodeError,
>)
    requires
        announces_heartbeat(pkt@) ==> heartbeat_ms <= u64::MAX / 2,
    ensures
        match inbound_result(pkt@, heartbeat_ms) {
            Some(o) => r matches Ok(x) && x@ == o,
            None => r is Err,
        },
        *final(uid) == session_uid_after(*old(uid), inbound_result(pkt@, heartbeat_ms)),
        pkt.op != 0 ==> *final(uid) == *old(uid),
        pkt.op == 0 ==> match handshake_req_decode(pkt.body@) {
            Some(req) => {
                &&& *final(uid) == Some(req.uid)
                &&& r matches Ok(x) && x.register == Some(req.uid) && x.job is None && (
                x.reply matches Some(p) && p.op == 0)
            },
            None => *final(uid) == *old(uid) && r is Err,
        },
        pkt.op == 1 ==> (r matches Ok(x) && x.register is None && x.job is None && (
        x.reply matches Some(p) && p.op == 1 && p.len == 0 && p.body@.len() == 0)),
        pkt.op == 2 ==> match im_message_decode(pkt.body@) {
            Some(m) => r matches Ok(x) && x.register is None && x.reply is None && (
            x.job matches Some(j) && j.from_uid == m.from_uid && j.to_uid_list@
                == m.to_uid_list && j.content@ == m.content && j.room_id == m.room_id),
            None => r is Err,
        },
        pkt.op > 2 ==> (r matches Ok(x) && x.register is None && x.reply is None && x.job is None),
{
    match Op::from_code(pkt.op) {
        Some(Op::Handshake) => {
            let req = match HandshakeReq::decode(pkt.body.as_slice()) {
                Ok(req) => req,
                Err(e) => return Err(e),
            };
            let auth_ok = verify_token(req.uid, &req.token);
            let mut register: Option<i64> = None;
            let resp = if auth_ok {
                *uid = Some(req.uid);
                register = Some(req.uid);
                HandshakeResp {
                    code: 0,
                    msg: String::from_str("ok"),
                    heartbeat_ms: heartbeat_for_handshake(heartbeat_ms),
                }
            } else {
                HandshakeResp { code: -1, msg: String::from_str("invalid token"), heartbeat_ms: 0 }
            };
            let resp_pkt = Packet { op: Op::Handshake.code(), body: resp.encode_to_vec(), len: 0 };
            Ok(InboundOutcome { register, reply: Some(resp_pkt), job: None })
        },
        Some(Op::Heartbeat) => {
            let resp_pkt = Packet { op: Op::Heartbeat.code(), body: Vec::new(), len: 0 };
            proof {
                assert(resp_pkt@ == heartbeat_reply()) by {
                    assert(resp_pkt@.body =~= Seq::<u8>::empty());
                }
            }
            Ok(InboundOutcome { register: None, reply: Some(resp_pkt), job: None })
        },
        Some(Op::SendMsg) => {
            match Message::decode(pkt.body.as_slice()) {
                Ok(m) => Ok(InboundOutcome { register: None, reply: None, job: Some(m) }),
                Err(e) => Err(e),
            }
        },
        _ => Ok(InboundOutcome { register: None, reply: None, job: None }),
    }
}


/// The state of one client connection: the user it serves once shaken hands, when it
/// last heard from the client and how long it waits, both in nanoseconds of the
/// connection's clock.
#[derive(Debug)]
pub struct Session {
    pub uid: Option<i64>,
    pub last_heard: u128,
    pub timeout: u128,
}

/// An event on a TCP connection.
#[derive(Debug)]
pub enum TcpEvent {
    /// A packet read from the client.
    Inbound(Packet),
    /// The stream held bytes that are not a frame of a packet.
    ReadFailed,
    /// The client closed the stream.
    StreamEnded,
    /// A packet queued for the client.
    Outbound(Packet),
    /// Writing a packet to the client failed.
    SendFailed,
    /// The queue of packets for the client is closed.
    OutboundClosed,
    /// The periodic check of the heartbeat.
    Tick,
}

/// An event on a WebSocket connection.
#[derive(Debug)]
pub enum WsEvent {
    /// A binary message from the client.
    Binary(Vec<u8>),
    /// The client sent a close message or the stream ended.
    Closed,
    /// Any other message, or a failed read.
    Other,
    /// The periodic check of the heartbeat.
    Tick,
}

/// What a connection does next.
#[derive(Debug)]
pub enum SessionAction {
    /// Nothing; wait for the next event.
    Continue,
    /// Carry out the answer to a packet.
    Handle(InboundOutcome),
    /// Write this packet to the client.
    Write(Packet),
    /// Close the connection; where a user is given, unregister that user's connection.
    Close(Option<i64>),
    /// Close the connection with this error, unregistering nothing.
    Fail(prost::DecodeError),
}

/// Whether a session last heard from its client more than its timeout before `now`.
pub open spec fn timed_out(last_heard: u128, timeout: u128, now: u128) -> bool {
    now > last_heard && now - last_heard > timeout
}

impl Session {
    /// A new connection at time `now` that waits `timeout` nanoseconds for its client.
    pub fn new(timeout: u128, now: u128) -> (r: Session)
        ensures
            r.uid is None,
            r.last_heard == now,
            r.timeout == timeout,
    {
        Session { uid: None, last_heard: now, timeout }
    }

    fn on_packet(&mut self, pkt: &Packet, now: u128, heartbeat_ms: u64) -> (r: SessionAction)
        requires
            announces_heartbeat(pkt@) ==> heartbeat_ms <= u64::MAX / 2,
        ensures
            final(self).last_heard == now,
            final(self).timeout == old(self).timeout,
            final(self).uid == session_uid_after(old(self).uid, inbound_result(pkt@, heartbeat_ms)),
            match inbound_result(pkt@, heartbeat_ms) {
                Some(o) => r matches SessionAction::Handle(x) && x@ == o,
                None => r is Fail,
            },
    {
        self.last_heard = now;
        match process_in_packet(pkt, &mut self.uid, heartbeat_ms) {
            Ok(o) => SessionAction::Handle(o),
            Err(e) => SessionAction::Fail(e),
        }
    }

    fn on_tick(&self, now: u128) -> (r: SessionAction)
        ensures
            timed_out(self.last_heard, self.timeout, now) ==> r == SessionAction::Close(self.uid),
            !timed_out(self.last_heard, self.timeout, now) ==> r is Continue,
    {
        if now > self.last_heard && now - self.last_heard > self.timeout {
            SessionAction::Close(self.uid)
        } else {
            SessionAction::Continue
        }
    }

    /// What a TCP connection does on `event` at time `now`, on a node whose heartbeat
    /// is `heartbeat_ms`. A packet from the client is handled and renews the heartbeat;
    /// a packet for the client is written; a failed read or write, the end of the
    /// stream and the close of the queue close the connection and unregister its
    /// user; a tick closes it when the client has been silent longer than the timeout.
    pub fn on_tcp_event(&mut self, event: TcpEvent, now: u128, heartbeat_ms: u64) -> (r: SessionAction)
        requires
            event matches TcpEvent::Inbound(p) ==> (announces_heartbeat(p@) ==> heartbeat_ms
                <= u64::MAX / 2),
        ensures
            final(self).timeout == old(self).timeout,
            event matches TcpEvent::Inbound(p) ==> (p.op != 0 ==> final(self).uid == old(self).uid),
            !(event is Inbound) ==> final(self).uid == old(self).uid,
            match event {
                TcpEvent::Inbound(pkt) => {
                    &&& final(self).last_heard == now
                    &&& final(self).uid == session_uid_after(
                        old(self).uid,
                        inbound_result(pkt@, heartbeat_ms),
                    )
                    &&& match inbound_result(pkt@, heartbeat_ms) {
                        Some(o) => r matches SessionAction::Handle(x) && x@ == o,
                        None => r is Fail,
                    }
                },
                TcpEvent::Outbound(pkt) => {
                    &&& *final(self) == *old(self)
                    &&& r matches SessionAction::Write(p) && p@ == pkt@
                },
                TcpEvent::Tick => {
                    &&& *final(self) == *old(self)
                    &&& if timed_out(old(self).last_heard, old(self).timeout, now) {
                        r == SessionAction::Close(old(self).uid)
                    } else {
                        r is Continue
                    }
                },
                _ => *final(self) == *old(self) && r == SessionAction::Close(old(self).uid),
            },
    {
        match event {
            TcpEvent::Inbound(pkt) => self.on_packet(&pkt, now, heartbeat_ms),
            TcpEvent::Outbound(pkt) => SessionAction::Write(pkt),
            TcpEvent::Tick => self.on_tick(now),
            _ => SessionAction::Close(self.uid),
        }
    }

    /// What a WebSocket connection does on `event` at time `now`, on a node whose
    /// heartbeat is `heartbeat_ms`. A binary message renews the heartbeat and is read
    /// as a packet, then handled; a body that is not a packet fails the connection. A
    /// close closes it and unregisters its user; other messages are ignored; a tick
    /// closes it when the client has been silent longer than the timeout.
    pub fn on_ws_event(&mut self, event: WsEvent, now: u128, heartbeat_ms: u64) -> (r: SessionAction)
        requires
            event matches WsEvent::Binary(d) ==> (packet_decode(d@) matches Some(p) ==> (
            announces_heartbeat(p) ==> heartbeat_ms <= u64::MAX / 2)),
        ensures
            final(self).timeout == old(self).timeout,
            event matches WsEvent::Binary(d) ==> (packet_decode(d@) matches Some(p) ==> (p.op != 0
                ==> final(self).uid == old(self).uid)),
            !(event is Binary) ==> final(self).uid == old(self).uid,
            match event {
                WsEvent::Binary(data) => {
                    &&& final(self).last_heard == now
                    &&& match packet_decode(data@) {
                        None => r is Fail && final(self).uid == old(self).uid,
                        Some(pkt) => {
                            &&& final(self).uid == session_uid_after(
                                old(self).uid,
                                inbound_result(pkt, heartbeat_ms),
                            )
                            &&& match inbound_result(pkt, heartbeat_ms) {
                                Some(o) => r matches SessionAction::Handle(x) && x@ == o,
                                None => r is Fail,
                            }
                        },
                    }
                },
                WsEvent::Closed => *final(self) == *old(self) && r == SessionAction::Close(
                    old(self).uid,
                ),
                WsEvent::Other => *final(self) == *old(self) && r is Continue,
                WsEvent::Tick => {
                    &&& *final(self) == *old(self)
                    &&& if timed_out(old(self).last_heard, old(self).timeout, now) {
                        r == SessionAction::Close(old(self).uid)
                    } else {
                        r is Continue
                    }
                },
            },
    {
        match event {
            WsEvent::Binary(data) => {
                self.last_heard = now;
                match Packet::decode(data.as_slice()) {
                    Ok(pkt) => self.on_packet(&pkt, now, heartbeat_ms),
                    Err(e) => SessionAction::Fail(e),
                }
            },
            WsEvent::Closed => SessionAction::Close(self.uid),
            WsEvent::Other => SessionAction::Continue,
            WsEvent::Tick => self.on_tick(now),
        }
    }
}

/// Only a handshake sets a session's user: after any packet whose operation is not the
/// handshake (wire number 0), the session holds the user it held.
pub proof fn law_only_handshake_sets_user(uid: Option<i64>, pkt: PacketModel, heartbeat_ms: u64)
    requires
        pkt.op != 0,
    ensures
        session_uid_after(uid, inbound_result(pkt, heartbeat_ms)) == uid,
        inbound_result(pkt, heartbeat_ms) matches Some(o) ==> o.register is None,
{
}

/// An accepted handshake makes the session the request's user's and registers that
/// user, whatever the session held before.
pub proof fn law_handshake_sets_user(uid: Option<i64>, pkt: PacketModel, heartbeat_ms: u64)
    requires
        pkt.op == 0,
        handshake_req_decode(pkt.body) is Some,
    ensures
        session_uid_after(uid, inbound_result(pkt, heartbeat_ms)) == Some(
            handshake_req_decode(pkt.body)->0.uid,
        ),
        inbound_result(pkt, heartbeat_ms) matches Some(o) && o.register == Some(
            handshake_req_decode(pkt.body)->0.uid,
        ),
{
}

/// A heartbeat (wire number 1) is answered with an empty heartbeat packet, and does
/// nothing else.
pub proof fn law_heartbeat_answered(pkt: PacketModel, heartbeat_ms: u64)
    requires
        pkt.op == 1,
    ensures
        inbound_result(pkt, heartbeat_ms) matches Some(o) && o.register is None && o.job is None
            && o.reply == Some(PacketModel { op: 1, body: Seq::<u8>::empty(), len: 0 }),
{
}

/// A message packet (wire number 2) whose body decodes to message `m` hands exactly
/// `m` to the queue, sender, receivers, text and room unchanged, and does nothing else.
pub proof fn law_message_queued_unchanged(pkt: PacketModel, heartbeat_ms: u64, m: MessageModel)
    requires
        pkt.op == 2,
        im_message_decode(pkt.body) == Some(m),
    ensures
        inbound_result(pkt, heartbeat_ms) matches Some(o) && o.register is None && o.reply is None
            && (o.job matches Some(j) && j.from_uid == m.from_uid && j.to_uid_list == m.to_uid_list
            && j.content == m.content && j.room_id == m.room_id),
{
}

/// Packets of the operations the gateway does not take from clients (push, kick and
/// unknown numbers) are ignored: no user, no answer, no job.
pub proof fn law_other_ops_ignored(pkt: PacketModel, heartbeat_ms: u64)
    requires
        pkt.op > 2,
    ensures
        inbound_result(pkt, heartbeat_ms) == Some(
            OutcomeModel { register: None, reply: None, job: None },
        ),
{
}

} // verus!
