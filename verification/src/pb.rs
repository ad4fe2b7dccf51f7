//! The protobuf messages of the gateway and their encodings: each message is
//! written and read field by field with the field codecs of `wire`.

use crate::wire::{
    decode_key_at, encode_bool_field, encode_int32_field, encode_int64_field,
    encode_packed_int64_field, encode_string_field, merge_bool_at, merge_int32_at,
    merge_int64_at, merge_repeated_int64_at, merge_string_at, opt_bool_bytes, opt_bytes_bytes,
    opt_int32_bytes, opt_int64_bytes, opt_string_bytes, packed_int64_bytes, encode_bytes_field, encode_uint32_field, key_parse, len_field_bytes,
    len_field_parse, lemma_int32_cast_roundtrip, lemma_int64_cast_roundtrip, lemma_len_field_roundtrip,
    lemma_packed_int64_roundtrip, lemma_string_field_roundtrip, varints_bytes, lemma_varint_field_roundtrip, lemma_varint_parse_bounds, merge_bytes_at, merge_uint32_at,
    repeated_int64_parse, skip_field_at, skip_field_len, skip_group_len, string_field_parse,
    varint_field_bytes, varint_field_parse, with_field_context,
};
use vstd::prelude::*;
use vstd::utf8::encode_utf8;

verus! {

/// Operation carried by a packet.
#[derive(Clone, Copy, Debug, PartialEq, Eq, Structural)]
pub enum Op {
    Handshake,
    Heartbeat,
    SendMsg,
    PushMsg,
    Kick,
}

/// The number that stands for each operation in a packet's `op` field.
pub open spec fn op_code(op: Op) -> u32 {
    match op {
        Op::Handshake => 0,
        Op::Heartbeat => 1,
        Op::SendMsg => 2,
        Op::PushMsg => 3,
        Op::Kick => 4,
    }
}

impl Op {
    /// The number of the operation on the wire.
    pub fn code(self) -> (r: u32)
        ensures
            r == op_code(self),
            self == Op::Handshake ==> r == 0,
            self == Op::Heartbeat ==> r == 1,
            self == Op::SendMsg ==> r == 2,
            self == Op::PushMsg ==> r == 3,
            self == Op::Kick ==> r == 4,
    {
        match self {
            Op::Handshake => 0,
            Op::Heartbeat => 1,
            Op::SendMsg => 2,
            Op::PushMsg => 3,
            Op::Kick => 4,
        }
    }

    /// The operation a wire number stands for, if any.
    pub fn from_code(code: u32) -> (r: Option<Op>)
        ensures
            match r {
                Some(op) => op_code(op) == code,
                None => forall|op: Op| op_code(op) != code,
            },
            code == 0 ==> r == Some(Op::Handshake),
            code == 1 ==> r == Some(Op::Heartbeat),
            code == 2 ==> r == Some(Op::SendMsg),
            code == 3 ==> r == Some(Op::PushMsg),
            code == 4 ==> r == Some(Op::Kick),
            code > 4 ==> r is None,
    {
        if code == 0 {
            Some(Op::Handshake)
        } else if code == 1 {
            Some(Op::Heartbeat)
        } else if code == 2 {
            Some(Op::SendMsg)
        } else if code == 3 {
            Some(Op::PushMsg)
        } else if code == 4 {
            Some(Op::Kick)
        } else {
            proof {
                assert forall|op: Op| op_code(op) != code by {
                    match op {
                        Op::Handshake => {},
                        Op::Heartbeat => {},
                        Op::SendMsg => {},
                        Op::PushMsg => {},
                        Op::Kick => {},
                    }
                }
            }
            None
        }
    }
}

/// The wire numbers of the operations are fixed: handshake 0, heartbeat 1, message 2,
/// push 3, kick 4; no two operations share a number.
pub proof fn law_op_wire_numbers()
    ensures
        op_code(Op::Handshake) == 0,
        op_code(Op::Heartbeat) == 1,
        op_code(Op::SendMsg) == 2,
        op_code(Op::PushMsg) == 3,
        op_code(Op::Kick) == 4,
        forall|a: Op, b: Op| op_code(a) == op_code(b) ==> a == b,
{
}

/// A packet exchanged with a client: `len` (field 1), `op` (field 2), `body` (field 3).
#[derive(Clone, Debug)]
pub struct Packet {
    pub len: u32,
    pub op: u32,
    pub body: Vec<u8>,
}

/// The value a packet stands for.
pub struct PacketModel {
    pub len: u32,
    pub op: u32,
    pub body: Seq<u8>,
}

impl View for Packet {
    type V = PacketModel;

    open spec fn view(&self) -> PacketModel {
        PacketModel { len: self.len, op: self.op, body: self.body@ }
    }
}

/// The packet every field of which holds its default.
pub open spec fn packet_default() -> PacketModel {
    PacketModel { len: 0, op: 0, body: Seq::empty() }
}

/// The bytes of a packet: each field that differs from its default, in tag order.
pub open spec fn packet_bytes(p: PacketModel) -> Seq<u8> {
    (if p.len != 0 {
        varint_field_bytes(1, p.len as nat)
    } else {
        Seq::empty()
    }) + (if p.op != 0 {
        varint_field_bytes(2, p.op as nat)
    } else {
        Seq::empty()
    }) + (if p.body.len() != 0 {
        len_field_bytes(3, p.body)
    } else {
        Seq::empty()
    })
}

/// One field of a packet read from the front of `s` after its key: the packet with
/// the field merged in and the bytes the value took.
pub open spec fn packet_field(acc: PacketModel, tag: u32, wire_type: u8, r: Seq<u8>) -> Option<(PacketModel, nat)> {
    if tag == 1 {
        match varint_field_parse(wire_type, r) {
            Some((v, n)) => Some((PacketModel { len: v as u32, ..acc }, n)),
            None => None,
        }
    } else if tag == 2 {
        match varint_field_parse(wire_type, r) {
            Some((v, n)) => Some((PacketModel { op: v as u32, ..acc }, n)),
            None => None,
        }
    } else if tag == 3 {
        match len_field_parse(wire_type, r) {
            Some((b, n)) => Some((PacketModel { body: b, ..acc }, n)),
            None => None,
        }
    } else {
        match skip_field_len(wire_type, r, skip_group_len(tag, r)) {
            Some(n) => Some((acc, n)),
            None => None,
        }
    }
}

/// The fields of `s` merged one after another into `acc`; the last occurrence of a
/// field wins and unknown fields are skipped.
pub open spec fn packet_merge(acc: PacketModel, s: Seq<u8>) -> Option<PacketModel>
    decreases s.len(),
{
    if s.len() == 0 {
        Some(acc)
    } else {
        match key_parse(s) {
            None => None,
            Some((tag, wt, kn)) => {
                match packet_field(acc, tag, wt, s.skip(kn as int)) {
                    None => None,
                    Some((a, n)) => {
                        if kn == 0 || kn + n > s.len() {
                            None
                        } else {
                            packet_merge(a, s.skip((kn + n) as int))
                        }
                    },
                }
            },
        }
    }
}

/// The packet `s` encodes, if it encodes one.
pub open spec fn packet_decode(s: Seq<u8>) -> Option<PacketModel> {
    packet_merge(packet_default(), s)
}

impl Packet {
    /// The protobuf encoding of the packet.
    pub fn encode_to_vec(&self) -> (r: Vec<u8>)
        ensures
            r@ == packet_bytes(self@),
    {
        let mut buf: Vec<u8> = Vec::new();
        if self.len != 0 {
            encode_uint32_field(1, self.len, &mut buf);
        }
        if self.op != 0 {
            encode_uint32_field(2, self.op, &mut buf);
        }
        if self.body.len() != 0 {
            encode_bytes_field(3, &self.body, &mut buf);
        }
        proof {
            assert(buf@ =~= packet_bytes(self@));
        }
        buf
    }

    /// The length of the packet's protobuf encoding.
    pub fn encoded_len(&self) -> (r: usize)
        ensures
            r == packet_bytes(self@).len(),
    {
        self.encode_to_vec().len()
    }

    /// The packet that `buf` encodes; an error where `buf` is not a packet's encoding.
    #[verifier::rlimit(50)]
    pub fn decode(buf: &[u8]) -> (r: Result<Packet, prost::DecodeError>)
        ensures
            match packet_decode(buf@) {
                Some(p) => r matches Ok(x) && x@ == p,
                None => r is Err,
            },
    {
        let mut p = Packet { len: 0, op: 0, body: Vec::new() };
        let mut pos: usize = 0;
        proof {
            assert(buf@.skip(0) =~= buf@);
            assert(p@.body =~= Seq::<u8>::empty());
        }
        while pos < buf.len()
            invariant
                pos <= buf@.len(),
                packet_merge(p@, buf@.skip(pos as int)) == packet_decode(buf@),
            decreases buf@.len() - pos,
        {
            let ghost s = buf@.skip(pos as int);
            proof {
                lemma_key_parse_bounds(s);
            }
            let (tag, wt, rem) = match decode_key_at(buf, pos) {
                Ok(k) => k,
                Err(e) => return Err(e),
            };
            let ghost kn = (buf@.len() - pos - rem) as nat;
            let kpos = buf.len() - rem;
            proof {
                assert(buf@.skip(kpos as int) =~= s.skip(kn as int));
                lemma_field_bounds(tag, wt, s.skip(kn as int));
            }
            let ghost before = p@;
            let rem2: usize;
            if tag == 1 {
                match merge_uint32_at(wt, buf, kpos) {
                    Ok((v, r2)) => {
                        p.len = v;
                        rem2 = r2;
                    },
                    Err(e) => return Err(with_field_context(e, "Packet", "len")),
                }
            } else if tag == 2 {
                match merge_uint32_at(wt, buf, kpos) {
                    Ok((v, r2)) => {
                        p.op = v;
                        rem2 = r2;
                    },
                    Err(e) => return Err(with_field_context(e, "Packet", "op")),
                }
            } else if tag == 3 {
                match merge_bytes_at(wt, buf, kpos) {
                    Ok((b, r2)) => {
                        p.body = b;
                        rem2 = r2;
                    },
                    Err(e) => return Err(with_field_context(e, "Packet", "body")),
                }
            } else {
                match skip_field_at(wt, tag, buf, kpos) {
                    Ok(r2) => {
                        rem2 = r2;
                    },
                    Err(e) => return Err(e),
                }
            }
            let ghost n = (buf@.len() - kpos - rem2) as nat;
            proof {
                assert(packet_field(before, tag, wt, s.skip(kn as int)) == Some((p@, n)));
                assert(buf@.skip(buf@.len() - rem2) =~= s.skip((kn + n) as int));
            }
            pos = buf.len() - rem2;
        }
        Ok(p)
    }
}

/// The request that opens a session: the user, the user's token, the device.
#[derive(Clone, Debug)]
pub struct HandshakeReq {
    pub uid: i64,
    pub token: String,
    pub device_id: String,
}

/// The value a `HandshakeReq` stands for.
pub struct HandshakeReqModel {
    pub uid: i64,
    pub token: Seq<char>,
    pub device_id: Seq<char>,
}

impl View for HandshakeReq {
    type V = HandshakeReqModel;

    open spec fn view(&self) -> HandshakeReqModel {
        HandshakeReqModel { uid: self.uid, token: self.token@, device_id: self.device_id@ }
    }
}

/// The `HandshakeReq` every field of which holds its default.
pub open spec fn handshake_req_default() -> HandshakeReqModel {
    HandshakeReqModel { uid: 0, token: Seq::empty(), device_id: Seq::empty() }
}

/// The bytes of a `HandshakeReq`: each field that differs from its default, in tag order.
pub open spec fn handshake_req_bytes(m: HandshakeReqModel) -> Seq<u8> {
    opt_int64_bytes(1, m.uid) + opt_string_bytes(2, m.token) + opt_string_bytes(3, m.device_id)
}

/// One field of a `HandshakeReq` read after its key: the value with the field merged in
/// and the bytes the field's value took.
pub open spec fn handshake_req_field(acc: HandshakeReqModel, tag: u32, wire_type: u8, r: Seq<u8>) -> Option<(HandshakeReqModel, nat)> {
    if tag == 1 {
        match varint_field_parse(wire_type, r) {
            Some((v, n)) => Some((HandshakeReqModel { uid: v as i64, ..acc }, n)),
            None => None,
        }
    } else if tag == 2 {
        match string_field_parse(wire_type, r) {
            Some((v, n)) => Some((HandshakeReqModel { token: v, ..acc }, n)),
            None => None,
        }
    } else if tag == 3 {
        match string_field_parse(wire_type, r) {
            Some((v, n)) => Some((HandshakeReqModel { device_id: v, ..acc }, n)),
            None => None,
        }
    } else {
        match skip_field_len(wire_type, r, skip_group_len(tag, r)) {
            Some(n) => Some((acc, n)),
            None => None,
        }
    }
}

/// The fields of `s` merged one after another into `acc`.
pub open spec fn handshake_req_merge(acc: HandshakeReqModel, s: Seq<u8>) -> Option<HandshakeReqModel>
    decreases s.len(),
{
    if s.len() == 0 {
        Some(acc)
    } else {
        match key_parse(s) {
            None => None,
            Some((tag, wt, kn)) => {
                match handshake_req_field(acc, tag, wt, s.skip(kn as int)) {
                    None => None,
                    Some((a, n)) => {
                        if kn == 0 || kn + n > s.len() {
                            None
                        } else {
                            handshake_req_merge(a, s.skip((kn + n) as int))
                        }
                    },
                }
            },
        }
    }
}

/// The `HandshakeReq` that `s` encodes, if it encodes one.
pub open spec fn handshake_req_decode(s: Seq<u8>) -> Option<HandshakeReqModel> {
    handshake_req_merge(handshake_req_default(), s)
}

impl HandshakeReq {
    /// The protobuf encoding of the message.
    pub fn encode_to_vec(&self) -> (r: Vec<u8>)
        ensures
            r@ == handshake_req_bytes(self@),
    {
        let mut buf: Vec<u8> = Vec::new();
        if self.uid != 0 {
            encode_int64_field(1, self.uid, &mut buf);
        }
        if !self.token.as_str().is_empty() {
            encode_string_field(2, &self.token, &mut buf);
        }
        if !self.device_id.as_str().is_empty() {
            encode_string_field(3, &self.device_id, &mut buf);
        }
        proof {
            assert(buf@ =~= handshake_req_bytes(self@));
        }
        buf
    }

    /// The message that `buf` encodes; an error where `buf` is not a message's encoding.
    #[verifier::rlimit(50)]
    pub fn decode(buf: &[u8]) -> (r: Result<HandshakeReq, prost::DecodeError>)
        ensures
            match handshake_req_decode(buf@) {
                Some(x) => r matches Ok(v) && v@ == x,
                None => r is Err,
            },
    {
        let mut m = HandshakeReq { uid: 0, token: String::new(), device_id: String::new() };
        let mut pos: usize = 0;
        proof {
            assert(buf@.skip(0) =~= buf@);
            assert(m@.token =~= Seq::empty());
            assert(m@.device_id =~= Seq::empty());
        }
        while pos < buf.len()
            invariant
                pos <= buf@.len(),
                handshake_req_merge(m@, buf@.skip(pos as int)) == handshake_req_decode(buf@),
            decreases buf@.len() - pos,
        {
            let ghost s = buf@.skip(pos as int);
            proof {
                lemma_key_parse_bounds(s);
            }
            let (tag, wt, rem) = match decode_key_at(buf, pos) {
                Ok(k) => k,
                Err(e) => return Err(e),
            };
            let ghost kn = (buf@.len() - pos - rem) as nat;
            let kpos = buf.len() - rem;
            proof {
                assert(buf@.skip(kpos as int) =~= s.skip(kn as int));
                lemma_field_bounds(tag, wt, s.skip(kn as int));
            }
            let ghost before = m@;
            let rem2: usize;
            if tag == 1 {
                match merge_int64_at(wt, buf, kpos) {
                    Ok((v, r2)) => {
                        m.uid = v;
                        rem2 = r2;
                    },
                    Err(e) => return Err(with_field_context(e, "HandshakeReq", "uid")),
                }
            } else if tag == 2 {
                match merge_string_at(wt, buf, kpos) {
                    Ok((v, r2)) => {
                        m.token = v;
                        rem2 = r2;
                    },
                    Err(e) => return Err(with_field_context(e, "HandshakeReq", "token")),
                }
            } else if tag == 3 {
                match merge_string_at(wt, buf, kpos) {
                    Ok((v, r2)) => {
                        m.device_id = v;
                        rem2 = r2;
                    },
                    Err(e) => return Err(with_field_context(e, "HandshakeReq", "device_id")),
                }
            } else {
                match skip_field_at(wt, tag, buf, kpos) {
                    Ok(r2) => {
                        rem2 = r2;
                    },
                    Err(e) => return Err(e),
                }
            }
            let ghost n = (buf@.len() - kpos - rem2) as nat;
            proof {
                assert(handshake_req_field(before, tag, wt, s.skip(kn as int)) == Some((m@, n)));
                assert(buf@.skip(buf@.len() - rem2) =~= s.skip((kn + n) as int));
            }
            pos = buf.len() - rem2;
        }
        Ok(m)
    }
}

/// The answer to a handshake: a result code, a text and the heartbeat interval.
#[derive(Clone, Debug)]
pub struct HandshakeResp {
    pub code: i32,
    pub msg: String,
    pub heartbeat_ms: i64,
}

/// The value a `HandshakeResp` stands for.
pub struct HandshakeRespModel {
    pub code: i32,
    pub msg: Seq<char>,
    pub heartbeat_ms: i64,
}

impl View for HandshakeResp {
    type V = HandshakeRespModel;

    open spec fn view(&self) -> HandshakeRespModel {
        HandshakeRespModel { code: self.code, msg: self.msg@, heartbeat_ms: self.heartbeat_ms }
    }
}

/// The `HandshakeResp` every field of which holds its default.
pub open spec fn handshake_resp_default() -> HandshakeRespModel {
    HandshakeRespModel { code: 0, msg: Seq::empty(), heartbeat_ms: 0 }
}

/// The bytes of a `HandshakeResp`: each field that differs from its default, in tag order.
pub open spec fn handshake_resp_bytes(m: HandshakeRespModel) -> Seq<u8> {
    opt_int32_bytes(1, m.code) + opt_string_bytes(2, m.msg) + opt_int64_bytes(3, m.heartbeat_ms)
}

/// One field of a `HandshakeResp` read after its key: the value with the field merged in
/// and the bytes the field's value took.
pub open spec fn handshake_resp_field(acc: HandshakeRespModel, tag: u32, wire_type: u8, r: Seq<u8>) -> Option<(HandshakeRespModel, nat)> {
    if tag == 1 {
        match varint_field_parse(wire_type, r) {
            Some((v, n)) => Some((HandshakeRespModel { code: v as i32, ..acc }, n)),
            None => None,
        }
    } else if tag == 2 {
        match string_field_parse(wire_type, r) {
            Some((v, n)) => Some((HandshakeRespModel { msg: v, ..acc }, n)),
            None => None,
        }
    } else if tag == 3 {
        match varint_field_parse(wire_type, r) {
            Some((v, n)) => Some((HandshakeRespModel { heartbeat_ms: v as i64, ..acc }, n)),
            None => None,
        }
    } else {
        match skip_field_len(wire_type, r, skip_group_len(tag, r)) {
            Some(n) => Some((acc, n)),
            None => None,
        }
    }
}

/// The fields of `s` merged one after another into `acc`.
pub open spec fn handshake_resp_merge(acc: HandshakeRespModel, s: Seq<u8>) -> Option<HandshakeRespModel>
    decreases s.len(),
{
    if s.len() == 0 {
        Some(acc)
    } else {
        match key_parse(s) {
            None => None,
            Some((tag, wt, kn)) => {
                match handshake_resp_field(acc, tag, wt, s.skip(kn as int)) {
                    None => None,
                    Some((a, n)) => {
                        if kn == 0 || kn + n > s.len() {
                            None
                        } else {
                            handshake_resp_merge(a, s.skip((kn + n) as int))
                        }
                    },
                }
            },
        }
    }
}

/// The `HandshakeResp` that `s` encodes, if it encodes one.
pub open spec fn handshake_resp_decode(s: Seq<u8>) -> Option<HandshakeRespModel> {
    handshake_resp_merge(handshake_resp_default(), s)
}

impl HandshakeResp {
    /// The protobuf encoding of the message.
    pub fn encode_to_vec(&self) -> (r: Vec<u8>)
        ensures
            r@ == handshake_resp_bytes(self@),
    {
        let mut buf: Vec<u8> = Vec::new();
        if self.code != 0 {
            encode_int32_field(1, self.code, &mut buf);
        }
        if !self.msg.as_str().is_empty() {
            encode_string_field(2, &self.msg, &mut buf);
        }
        if self.heartbeat_ms != 0 {
            encode_int64_field(3, self.heartbeat_ms, &mut buf);
        }
        proof {
            assert(buf@ =~= handshake_resp_bytes(self@));
        }
        buf
    }

    /// The message that `buf` encodes; an error where `buf` is not a message's encoding.
    #[verifier::rlimit(50)]
    pub fn decode(buf: &[u8]) -> (r: Result<HandshakeResp, prost::DecodeError>)
        ensures
            match handshake_resp_decode(buf@) {
                Some(x) => r matches Ok(v) && v@ == x,
                None => r is Err,
            },
    {
        let mut m = HandshakeResp { code: 0, msg: String::new(), heartbeat_ms: 0 };
        let mut pos: usize = 0;
        proof {
            assert(buf@.skip(0) =~= buf@);
            assert(m@.msg =~= Seq::empty());
        }
        while pos < buf.len()
            invariant
                pos <= buf@.len(),
                handshake_resp_merge(m@, buf@.skip(pos as int)) == handshake_resp_decode(buf@),
            decreases buf@.len() - pos,
        {
            let ghost s = buf@.skip(pos as int);
            proof {
                lemma_key_parse_bounds(s);
            }
            let (tag, wt, rem) = match decode_key_at(buf, pos) {
                Ok(k) => k,
                Err(e) => return Err(e),
            };
            let ghost kn = (buf@.len() - pos - rem) as nat;
            let kpos = buf.len() - rem;
            proof {
                assert(buf@.skip(kpos as int) =~= s.skip(kn as int));
                lemma_field_bounds(tag, wt, s.skip(kn as int));
            }
            let ghost before = m@;
            let rem2: usize;
            if tag == 1 {
                match merge_int32_at(wt, buf, kpos) {
                    Ok((v, r2)) => {
                        m.code = v;
                        rem2 = r2;
                    },
                    Err(e) => return Err(with_field_context(e, "HandshakeResp", "code")),
                }
            } else if tag == 2 {
                match merge_string_at(wt, buf, kpos) {
                    Ok((v, r2)) => {
                        m.msg = v;
                        rem2 = r2;
                    },
                    Err(e) => return Err(with_field_context(e, "HandshakeResp", "msg")),
                }
            } else if tag == 3 {
                match merge_int64_at(wt, buf, kpos) {
                    Ok((v, r2)) => {
                        m.heartbeat_ms = v;
                        rem2 = r2;
                    },
                    Err(e) => return Err(with_field_context(e, "HandshakeResp", "heartbeat_ms")),
                }
            } else {
                match skip_field_at(wt, tag, buf, kpos) {
                    Ok(r2) => {
                        rem2 = r2;
                    },
                    Err(e) => return Err(e),
                }
            }
            let ghost n = (buf@.len() - kpos - rem2) as nat;
            proof {
                assert(handshake_resp_field(before, tag, wt, s.skip(kn as int)) == Some((m@, n)));
                assert(buf@.skip(buf@.len() - rem2) =~= s.skip((kn + n) as int));
            }
            pos = buf.len() - rem2;
        }
        Ok(m)
    }
}

/// A chat message: sender, receivers, text and room.
#[derive(Clone, Debug)]
pub struct Message {
    pub from_uid: i64,
    pub to_uid_list: Vec<i64>,
    pub content: String,
    pub room_id: i64,
}

/// The value a `Message` stands for.
pub struct MessageModel {
    pub from_uid: i64,
    pub to_uid_list: Seq<i64>,
    pub content: Seq<char>,
    pub room_id: i64,
}

impl View for Message {
    type V = MessageModel;

    open spec fn view(&self) -> MessageModel {
        MessageModel { from_uid: self.from_uid, to_uid_list: self.to_uid_list@, content: self.content@, room_id: self.room_id }
    }
}

/// The `Message` every field of which holds its default.
pub open spec fn im_message_default() -> MessageModel {
    MessageModel { from_uid: 0, to_uid_list: Seq::empty(), content: Seq::empty(), room_id: 0 }
}

/// The bytes of a `Message`: each field that differs from its default, in tag order.
pub open spec fn im_message_bytes(m: MessageModel) -> Seq<u8> {
    opt_int64_bytes(1, m.from_uid) + packed_int64_bytes(2, m.to_uid_list) + opt_string_bytes(3, m.content) + opt_int64_bytes(4, m.room_id)
}

/// One field of a `Message` read after its key: the value with the field merged in
/// and the bytes the field's value took.
pub open spec fn im_message_field(acc: MessageModel, tag: u32, wire_type: u8, r: Seq<u8>) -> Option<(MessageModel, nat)> {
    if tag == 1 {
        match varint_field_parse(wire_type, r) {
            Some((v, n)) => Some((MessageModel { from_uid: v as i64, ..acc }, n)),
            None => None,
        }
    } else if tag == 2 {
        match repeated_int64_parse(wire_type, r) {
            Some((v, n)) => Some((MessageModel { to_uid_list: acc.to_uid_list + v, ..acc }, n)),
            None => None,
        }
    } else if tag == 3 {
        match string_field_parse(wire_type, r) {
            Some((v, n)) => Some((MessageModel { content: v, ..acc }, n)),
            None => None,
        }
    } else if tag == 4 {
        match varint_field_parse(wire_type, r) {
            Some((v, n)) => Some((MessageModel { room_id: v as i64, ..acc }, n)),
            None => None,
        }
    } else {
        match skip_field_len(wire_type, r, skip_group_len(tag, r)) {
            Some(n) => Some((acc, n)),
            None => None,
        }
    }
}

/// The fields of `s` merged one after another into `acc`.
pub open spec fn im_message_merge(acc: MessageModel, s: Seq<u8>) -> Option<MessageModel>
    decreases s.len(),
{
    if s.len() == 0 {
        Some(acc)
    } else {
        match key_parse(s) {
            None => None,
            Some((tag, wt, kn)) => {
                match im_message_field(acc, tag, wt, s.skip(kn as int)) {
                    None => None,
                    Some((a, n)) => {
                        if kn == 0 || kn + n > s.len() {
                            None
                        } else {
                            im_message_merge(a, s.skip((kn + n) as int))
                        }
                    },
                }
            },
        }
    }
}

/// The `Message` that `s` encodes, if it encodes one.
pub open spec fn im_message_decode(s: Seq<u8>) -> Option<MessageModel> {
    im_message_merge(im_message_default(), s)
}

impl Message {
    /// The protobuf encoding of the message.
    pub fn encode_to_vec(&self) -> (r: Vec<u8>)
        ensures
            r@ == im_message_bytes(self@),
    {
        let mut buf: Vec<u8> = Vec::new();
        if self.from_uid != 0 {
            encode_int64_field(1, self.from_uid, &mut buf);
        }
        encode_packed_int64_field(2, &self.to_uid_list, &mut buf);
        if !self.content.as_str().is_empty() {
            encode_string_field(3, &self.content, &mut buf);
        }
        if self.room_id != 0 {
            encode_int64_field(4, self.room_id, &mut buf);
        }
        proof {
            assert(buf@ =~= im_message_bytes(self@));
        }
        buf
    }

    /// The message that `buf` encodes; an error where `buf` is not a message's encoding.
    #[verifier::rlimit(50)]
    pub fn decode(buf: &[u8]) -> (r: Result<Message, prost::DecodeError>)
        ensures
            match im_message_decode(buf@) {
                Some(x) => r matches Ok(v) && v@ == x,
                None => r is Err,
            },
    {
        let mut m = Message { from_uid: 0, to_uid_list: Vec::new(), content: String::new(), room_id: 0 };
        let mut pos: usize = 0;
        proof {
            assert(buf@.skip(0) =~= buf@);
            assert(m@.to_uid_list =~= Seq::empty());
            assert(m@.content =~= Seq::empty());
        }
        while pos < buf.len()
            invariant
                pos <= buf@.len(),
                im_message_merge(m@, buf@.skip(pos as int)) == im_message_decode(buf@),
            decreases buf@.len() - pos,
        {
            let ghost s = buf@.skip(pos as int);
            proof {
                lemma_key_parse_bounds(s);
            }
            let (tag, wt, rem) = match decode_key_at(buf, pos) {
                Ok(k) => k,
                Err(e) => return Err(e),
            };
            let ghost kn = (buf@.len() - pos - rem) as nat;
            let kpos = buf.len() - rem;
            proof {
                assert(buf@.skip(kpos as int) =~= s.skip(kn as int));
                lemma_field_bounds(tag, wt, s.skip(kn as int));
            }
            let ghost before = m@;
            let rem2: usize;
            if tag == 1 {
                match merge_int64_at(wt, buf, kpos) {
                    Ok((v, r2)) => {
                        m.from_uid = v;
                        rem2 = r2;
                    },
                    Err(e) => return Err(with_field_context(e, "Message", "from_uid")),
                }
            } else if tag == 2 {
                match merge_repeated_int64_at(wt, &mut m.to_uid_list, buf, kpos) {
                    Ok(r2) => {
                        rem2 = r2;
                    },
                    Err(e) => return Err(with_field_context(e, "Message", "to_uid_list")),
                }
            } else if tag == 3 {
                match merge_string_at(wt, buf, kpos) {
                    Ok((v, r2)) => {
                        m.content = v;
                        rem2 = r2;
                    },
                    Err(e) => return Err(with_field_context(e, "Message", "content")),
                }
            } else if tag == 4 {
                match merge_int64_at(wt, buf, kpos) {
                    Ok((v, r2)) => {
                        m.room_id = v;
                        rem2 = r2;
                    },
                    Err(e) => return Err(with_field_context(e, "Message", "room_id")),
                }
            } else {
                match skip_field_at(wt, tag, buf, kpos) {
                    Ok(r2) => {
                        rem2 = r2;
                    },
                    Err(e) => return Err(e),
                }
            }
            let ghost n = (buf@.len() - kpos - rem2) as nat;
            proof {
                assert(im_message_field(before, tag, wt, s.skip(kn as int)) == Some((m@, n)));
                assert(buf@.skip(buf@.len() - rem2) =~= s.skip((kn + n) as int));
            }
            pos = buf.len() - rem2;
        }
        Ok(m)
    }
}

/// A push handed to another gateway node: the receiver and a packet's encoding.
#[derive(Clone, Debug)]
pub struct RemotePushReq {
    pub uid: i64,
    pub packet_bin: Vec<u8>,
}

/// The value a `RemotePushReq` stands for.
pub struct RemotePushReqModel {
    pub uid: i64,
    pub packet_bin: Seq<u8>,
}

impl View for RemotePushReq {
    type V = RemotePushReqModel;

    open spec fn view(&self) -> RemotePushReqModel {
        RemotePushReqModel { uid: self.uid, packet_bin: self.packet_bin@ }
    }
}

/// The `RemotePushReq` every field of which holds its default.
pub open spec fn remote_push_req_default() -> RemotePushReqModel {
    RemotePushReqModel { uid: 0, packet_bin: Seq::empty() }
}

/// The bytes of a `RemotePushReq`: each field that differs from its default, in tag order.
pub open spec fn remote_push_req_bytes(m: RemotePushReqModel) -> Seq<u8> {
    opt_int64_bytes(1, m.uid) + opt_bytes_bytes(2, m.packet_bin)
}

/// One field of a `RemotePushReq` read after its key: the value with the field merged in
/// and the bytes the field's value took.
pub open spec fn remote_push_req_field(acc: RemotePushReqModel, tag: u32, wire_type: u8, r: Seq<u8>) -> Option<(RemotePushReqModel, nat)> {
    if tag == 1 {
        match varint_field_parse(wire_type, r) {
            Some((v, n)) => Some((RemotePushReqModel { uid: v as i64, ..acc }, n)),
            None => None,
        }
    } else if tag == 2 {
        match len_field_parse(wire_type, r) {
            Some((v, n)) => Some((RemotePushReqModel { packet_bin: v, ..acc }, n)),
            None => None,
        }
    } else {
        match skip_field_len(wire_type, r, skip_group_len(tag, r)) {
            Some(n) => Some((acc, n)),
            None => None,
        }
    }
}

/// The fields of `s` merged one after another into `acc`.
pub open spec fn remote_push_req_merge(acc: RemotePushReqModel, s: Seq<u8>) -> Option<RemotePushReqModel>
    decreases s.len(),
{
    if s.len() == 0 {
        Some(acc)
    } else {
        match key_parse(s) {
            None => None,
            Some((tag, wt, kn)) => {
                match remote_push_req_field(acc, tag, wt, s.skip(kn as int)) {
                    None => None,
                    Some((a, n)) => {
                        if kn == 0 || kn + n > s.len() {
                            None
                        } else {
                            remote_push_req_merge(a, s.skip((kn + n) as int))
                        }
                    },
                }
            },
        }
    }
}

/// The `RemotePushReq` that `s` encodes, if it encodes one.
pub open spec fn remote_push_req_decode(s: Seq<u8>) -> Option<RemotePushReqModel> {
    remote_push_req_merge(remote_push_req_default(), s)
}

impl RemotePushReq {
    /// The protobuf encoding of the message.
    pub fn encode_to_vec(&self) -> (r: Vec<u8>)
        ensures
            r@ == remote_push_req_bytes(self@),
    {
        let mut buf: Vec<u8> = Vec::new();
        if self.uid != 0 {
            encode_int64_field(1, self.uid, &mut buf);
        }
        if self.packet_bin.len() != 0 {
            encode_bytes_field(2, &self.packet_bin, &mut buf);
        }
        proof {
            assert(buf@ =~= remote_push_req_bytes(self@));
        }
        buf
    }

    /// The message that `buf` encodes; an error where `buf` is not a message's encoding.
    #[verifier::rlimit(50)]
    pub fn decode(buf: &[u8]) -> (r: Result<RemotePushReq, prost::DecodeError>)
        ensures
            match remote_push_req_decode(buf@) {
                Some(x) => r matches Ok(v) && v@ == x,
                None => r is Err,
            },
    {
        let mut m = RemotePushReq { uid: 0, packet_bin: Vec::new() };
        let mut pos: usize = 0;
        proof {
            assert(buf@.skip(0) =~= buf@);
            assert(m@.packet_bin =~= Seq::empty());
        }
        while pos < buf.len()
            invariant
                pos <= buf@.len(),
                remote_push_req_merge(m@, buf@.skip(pos as int)) == remote_push_req_decode(buf@),
            decreases buf@.len() - pos,
        {
            let ghost s = buf@.skip(pos as int);
            proof {
                lemma_key_parse_bounds(s);
            }
            let (tag, wt, rem) = match decode_key_at(buf, pos) {
                Ok(k) => k,
                Err(e) => return Err(e),
            };
            let ghost kn = (buf@.len() - pos - rem) as nat;
            let kpos = buf.len() - rem;
            proof {
                assert(buf@.skip(kpos as int) =~= s.skip(kn as int));
                lemma_field_bounds(tag, wt, s.skip(kn as int));
            }
            let ghost before = m@;
            let rem2: usize;
            if tag == 1 {
                match merge_int64_at(wt, buf, kpos) {
                    Ok((v, r2)) => {
                        m.uid = v;
                        rem2 = r2;
                    },
                    Err(e) => return Err(with_field_context(e, "RemotePushReq", "uid")),
                }
            } else if tag == 2 {
                match merge_bytes_at(wt, buf, kpos) {
                    Ok((v, r2)) => {
                        m.packet_bin = v;
                        rem2 = r2;
                    },
                    Err(e) => return Err(with_field_context(e, "RemotePushReq", "packet_bin")),
                }
            } else {
                match skip_field_at(wt, tag, buf, kpos) {
                    Ok(r2) => {
                        rem2 = r2;
                    },
                    Err(e) => return Err(e),
                }
            }
            let ghost n = (buf@.len() - kpos - rem2) as nat;
            proof {
                assert(remote_push_req_field(before, tag, wt, s.skip(kn as int)) == Some((m@, n)));
                assert(buf@.skip(buf@.len() - rem2) =~= s.skip((kn + n) as int));
            }
            pos = buf.len() - rem2;
        }
        Ok(m)
    }
}

/// The answer of a gateway node to a remote push.
#[derive(Clone, Debug)]
pub struct RemotePushResp {
    pub success: bool,
    pub msg: String,
}

/// The value a `RemotePushResp` stands for.
pub struct RemotePushRespModel {
    pub success: bool,
    pub msg: Seq<char>,
}

impl View for RemotePushResp {
    type V = RemotePushRespModel;

    open spec fn view(&self) -> RemotePushRespModel {
        RemotePushRespModel { success: self.success, msg: self.msg@ }
    }
}

/// The `RemotePushResp` every field of which holds its default.
pub open spec fn remote_push_resp_default() -> RemotePushRespModel {
    RemotePushRespModel { success: false, msg: Seq::empty() }
}

/// The bytes of a `RemotePushResp`: each field that differs from its default, in tag order.
pub open spec fn remote_push_resp_bytes(m: RemotePushRespModel) -> Seq<u8> {
    opt_bool_bytes(1, m.success) + opt_string_bytes(2, m.msg)
}

/// One field of a `RemotePushResp` read after its key: the value with the field merged in
/// and the bytes the field's value took.
pub open spec fn remote_push_resp_field(acc: RemotePushRespModel, tag: u32, wire_type: u8, r: Seq<u8>) -> Option<(RemotePushRespModel, nat)> {
    if tag == 1 {
        match varint_field_parse(wire_type, r) {
            Some((v, n)) => Some((RemotePushRespModel { success: v != 0, ..acc }, n)),
            None => None,
        }
    } else if tag == 2 {
        match string_field_parse(wire_type, r) {
            Some((v, n)) => Some((RemotePushRespModel { msg: v, ..acc }, n)),
            None => None,
        }
    } else {
        match skip_field_len(wire_type, r, skip_group_len(tag, r)) {
            Some(n) => Some((acc, n)),
            None => None,
        }
    }
}

/// The fields of `s` merged one after another into `acc`.
pub open spec fn remote_push_resp_merge(acc: RemotePushRespModel, s: Seq<u8>) -> Option<RemotePushRespModel>
    decreases s.len(),
{
    if s.len() == 0 {
        Some(acc)
    } else {
        match key_parse(s) {
            None => None,
            Some((tag, wt, kn)) => {
                match remote_push_resp_field(acc, tag, wt, s.skip(kn as int)) {
                    None => None,
                    Some((a, n)) => {
                        if kn == 0 || kn + n > s.len() {
                            None
                        } else {
                            remote_push_resp_merge(a, s.skip((kn + n) as int))
                        }
                    },
                }
            },
        }
    }
}

/// The `RemotePushResp` that `s` encodes, if it encodes one.
pub open spec fn remote_push_resp_decode(s: Seq<u8>) -> Option<RemotePushRespModel> {
    remote_push_resp_merge(remote_push_resp_default(), s)
}

impl RemotePushResp {
    /// The protobuf encoding of the message.
    pub fn encode_to_vec(&self) -> (r: Vec<u8>)
        ensures
            r@ == remote_push_resp_bytes(self@),
    {
        let mut buf: Vec<u8> = Vec::new();
        if self.success {
            encode_bool_field(1, self.success, &mut buf);
        }
        if !self.msg.as_str().is_empty() {
            encode_string_field(2, &self.msg, &mut buf);
        }
        proof {
            assert(buf@ =~= remote_push_resp_bytes(self@));
        }
        buf
    }

    /// The message that `buf` encodes; an error where `buf` is not a message's encoding.
    #[verifier::rlimit(50)]
    pub fn decode(buf: &[u8]) -> (r: Result<RemotePushResp, prost::DecodeError>)
        ensures
            match remote_push_resp_decode(buf@) {
                Some(x) => r matches Ok(v) && v@ == x,
                None => r is Err,
            },
    {
        let mut m = RemotePushResp { success: false, msg: String::new() };
        let mut pos: usize = 0;
        proof {
            assert(buf@.skip(0) =~= buf@);
            assert(m@.msg =~= Seq::empty());
        }
        while pos < buf.len()
            invariant
                pos <= buf@.len(),
                remote_push_resp_merge(m@, buf@.skip(pos as int)) == remote_push_resp_decode(buf@),
            decreases buf@.len() - pos,
        {
            let ghost s = buf@.skip(pos as int);
            proof {
                lemma_key_parse_bounds(s);
            }
            let (tag, wt, rem) = match decode_key_at(buf, pos) {
                Ok(k) => k,
                Err(e) => return Err(e),
            };
            let ghost kn = (buf@.len() - pos - rem) as nat;
            let kpos = buf.len() - rem;
            proof {
                assert(buf@.skip(kpos as int) =~= s.skip(kn as int));
                lemma_field_bounds(tag, wt, s.skip(kn as int));
            }
            let ghost before = m@;
            let rem2: usize;
            if tag == 1 {
                match merge_bool_at(wt, buf, kpos) {
                    Ok((v, r2)) => {
                        m.success = v;
                        rem2 = r2;
                    },
                    Err(e) => return Err(with_field_context(e, "RemotePushResp", "success")),
                }
            } else if tag == 2 {
                match merge_string_at(wt, buf, kpos) {
                    Ok((v, r2)) => {
                        m.msg = v;
                        rem2 = r2;
                    },
                    Err(e) => return Err(with_field_context(e, "RemotePushResp", "msg")),
                }
            } else {
                match skip_field_at(wt, tag, buf, kpos) {
                    Ok(r2) => {
                        rem2 = r2;
                    },
                    Err(e) => return Err(e),
                }
            }
            let ghost n = (buf@.len() - kpos - rem2) as nat;
            proof {
                assert(remote_push_resp_field(before, tag, wt, s.skip(kn as int)) == Some((m@, n)));
                assert(buf@.skip(buf@.len() - rem2) =~= s.skip((kn + n) as int));
            }
            pos = buf.len() - rem2;
        }
        Ok(m)
    }
}

/// Reading a varint field of a packet merges its value and goes on after it.
proof fn lemma_packet_merge_varint(acc: PacketModel, tag: u32, v: u32, rest: Seq<u8>)
    requires
        tag == 1 || tag == 2,
    ensures
        packet_merge(acc, varint_field_bytes(tag, v as nat) + rest) == packet_merge(
            if tag == 1 {
                PacketModel { len: v, ..acc }
            } else {
                PacketModel { op: v, ..acc }
            },
            rest,
        ),
{
    let s = varint_field_bytes(tag, v as nat) + rest;
    lemma_varint_field_roundtrip(tag, v as u64, rest);
    assert(s.len() > 0);
}

/// Reading the body field of a packet merges its payload and goes on after it.
proof fn lemma_packet_merge_body(acc: PacketModel, b: Seq<u8>, rest: Seq<u8>)
    requires
        b.len() <= u64::MAX,
    ensures
        packet_merge(acc, len_field_bytes(3, b) + rest) == packet_merge(
            PacketModel { body: b, ..acc },
            rest,
        ),
{
    let s = len_field_bytes(3, b) + rest;
    lemma_len_field_roundtrip(3, b, rest);
    assert(s.len() > 0);
}

/// A packet is read back from its own bytes.
pub proof fn law_packet_roundtrip(p: PacketModel)
    requires
        p.body.len() <= u64::MAX,
    ensures
        packet_decode(packet_bytes(p)) == Some(p),
{
    let a: Seq<u8> = if p.len != 0 {
        varint_field_bytes(1, p.len as nat)
    } else {
        Seq::empty()
    };
    let b: Seq<u8> = if p.op != 0 {
        varint_field_bytes(2, p.op as nat)
    } else {
        Seq::empty()
    };
    let c: Seq<u8> = if p.body.len() != 0 {
        len_field_bytes(3, p.body)
    } else {
        Seq::empty()
    };
    let empty = Seq::<u8>::empty();
    assert(packet_bytes(p) =~= a + (b + c));
    let acc0 = packet_default();
    let acc1 = PacketModel { len: p.len, ..acc0 };
    let acc2 = PacketModel { op: p.op, ..acc1 };
    if p.len != 0 {
        lemma_packet_merge_varint(acc0, 1, p.len, b + c);
    } else {
        assert(a + (b + c) =~= b + c);
    }
    if p.op != 0 {
        lemma_packet_merge_varint(acc1, 2, p.op, c);
    } else {
        assert(b + c =~= c);
    }
    if p.body.len() != 0 {
        assert(c =~= c + empty);
        lemma_packet_merge_body(acc2, p.body, empty);
        assert(PacketModel { body: p.body, ..acc2 } == p);
    } else {
        assert(p.body =~= Seq::<u8>::empty());
        assert(acc2 == p);
    }
}

proof fn lemma_handshake_req_merge_uid(acc: HandshakeReqModel, v: i64, rest: Seq<u8>)
    requires
        v != 0,
    ensures
        handshake_req_merge(acc, opt_int64_bytes(1, v) + rest) == handshake_req_merge(HandshakeReqModel { uid: v, ..acc }, rest),
{
    lemma_varint_field_roundtrip(1, v as u64, rest);
    lemma_int64_cast_roundtrip(v);
    assert((opt_int64_bytes(1, v) + rest).len() > 0);
}

proof fn lemma_handshake_req_merge_token(acc: HandshakeReqModel, v: Seq<char>, rest: Seq<u8>)
    requires
        v.len() != 0,
        encode_utf8(v).len() <= u64::MAX,
    ensures
        handshake_req_merge(acc, opt_string_bytes(2, v) + rest) == handshake_req_merge(HandshakeReqModel { token: v, ..acc }, rest),
{
    lemma_string_field_roundtrip(2, v, rest);
    assert((opt_string_bytes(2, v) + rest).len() > 0);
}

proof fn lemma_handshake_req_merge_device_id(acc: HandshakeReqModel, v: Seq<char>, rest: Seq<u8>)
    requires
        v.len() != 0,
        encode_utf8(v).len() <= u64::MAX,
    ensures
        handshake_req_merge(acc, opt_string_bytes(3, v) + rest) == handshake_req_merge(HandshakeReqModel { device_id: v, ..acc }, rest),
{
    lemma_string_field_roundtrip(3, v, rest);
    assert((opt_string_bytes(3, v) + rest).len() > 0);
}

/// A `HandshakeReq` is read back from its own bytes.
pub proof fn law_handshake_req_roundtrip(m: HandshakeReqModel)
    requires
        encode_utf8(m.token).len() <= u64::MAX,
        encode_utf8(m.device_id).len() <= u64::MAX,
    ensures
        handshake_req_decode(handshake_req_bytes(m)) == Some(m),
{
    let empty = Seq::<u8>::empty();
    let p0 = opt_int64_bytes(1, m.uid);
    let p1 = opt_string_bytes(2, m.token);
    let p2 = opt_string_bytes(3, m.device_id);
    let s2 = p2 + empty;
    let s1 = p1 + s2;
    let s0 = p0 + s1;
    assert(handshake_req_bytes(m) =~= s0);
    let a0 = handshake_req_default();
    let a1 = HandshakeReqModel { uid: m.uid, ..a0 };
    let a2 = HandshakeReqModel { token: m.token, ..a1 };
    let a3 = HandshakeReqModel { device_id: m.device_id, ..a2 };
    if m.uid != 0 {
        lemma_handshake_req_merge_uid(a0, m.uid, s1);
    } else {
        assert(s0 =~= s1);
        assert(a1 == a0);
    }
    if m.token.len() != 0 {
        lemma_handshake_req_merge_token(a1, m.token, s2);
    } else {
        assert(s1 =~= s2);
        assert(m.token =~= a1.token);
        assert(a2 == a1);
    }
    if m.device_id.len() != 0 {
        lemma_handshake_req_merge_device_id(a2, m.device_id, empty);
    } else {
        assert(s2 =~= empty);
        assert(m.device_id =~= a2.device_id);
        assert(a3 == a2);
    }
    assert(a3.token =~= m.token);
    assert(a3.device_id =~= m.device_id);
    assert(a3 == m);
}

proof fn lemma_handshake_resp_merge_code(acc: HandshakeRespModel, v: i32, rest: Seq<u8>)
    requires
        v != 0,
    ensures
        handshake_resp_merge(acc, opt_int32_bytes(1, v) + rest) == handshake_resp_merge(HandshakeRespModel { code: v, ..acc }, rest),
{
    lemma_varint_field_roundtrip(1, v as u64, rest);
    lemma_int32_cast_roundtrip(v);
    assert((opt_int32_bytes(1, v) + rest).len() > 0);
}

proof fn lemma_handshake_resp_merge_msg(acc: HandshakeRespModel, v: Seq<char>, rest: Seq<u8>)
    requires
        v.len() != 0,
        encode_utf8(v).len() <= u64::MAX,
    ensures
        handshake_resp_merge(acc, opt_string_bytes(2, v) + rest) == handshake_resp_merge(HandshakeRespModel { msg: v, ..acc }, rest),
{
    lemma_string_field_roundtrip(2, v, rest);
    assert((opt_string_bytes(2, v) + rest).len() > 0);
}

proof fn lemma_handshake_resp_merge_heartbeat_ms(acc: HandshakeRespModel, v: i64, rest: Seq<u8>)
    requires
        v != 0,
    ensures
        handshake_resp_merge(acc, opt_int64_bytes(3, v) + rest) == handshake_resp_merge(HandshakeRespModel { heartbeat_ms: v, ..acc }, rest),
{
    lemma_varint_field_roundtrip(3, v as u64, rest);
    lemma_int64_cast_roundtrip(v);
    assert((opt_int64_bytes(3, v) + rest).len() > 0);
}

/// A `HandshakeResp` is read back from its own bytes.
pub proof fn law_handshake_resp_roundtrip(m: HandshakeRespModel)
    requires
        encode_utf8(m.msg).len() <= u64::MAX,
    ensures
        handshake_resp_decode(handshake_resp_bytes(m)) == Some(m),
{
    let empty = Seq::<u8>::empty();
    let p0 = opt_int32_bytes(1, m.code);
    let p1 = opt_string_bytes(2, m.msg);
    let p2 = opt_int64_bytes(3, m.heartbeat_ms);
    let s2 = p2 + empty;
    let s1 = p1 + s2;
    let s0 = p0 + s1;
    assert(handshake_resp_bytes(m) =~= s0);
    let a0 = handshake_resp_default();
    let a1 = HandshakeRespModel { code: m.code, ..a0 };
    let a2 = HandshakeRespModel { msg: m.msg, ..a1 };
    let a3 = HandshakeRespModel { heartbeat_ms: m.heartbeat_ms, ..a2 };
    if m.code != 0 {
        lemma_handshake_resp_merge_code(a0, m.code, s1);
    } else {
        assert(s0 =~= s1);
        assert(a1 == a0);
    }
    if m.msg.len() != 0 {
        lemma_handshake_resp_merge_msg(a1, m.msg, s2);
    } else {
        assert(s1 =~= s2);
        assert(m.msg =~= a1.msg);
        assert(a2 == a1);
    }
    if m.heartbeat_ms != 0 {
        lemma_handshake_resp_merge_heartbeat_ms(a2, m.heartbeat_ms, empty);
    } else {
        assert(s2 =~= empty);
        assert(a3 == a2);
    }
    assert(a3.msg =~= m.msg);
    assert(a3 == m);
}

proof fn lemma_im_message_merge_from_uid(acc: MessageModel, v: i64, rest: Seq<u8>)
    requires
        v != 0,
    ensures
        im_message_merge(acc, opt_int64_bytes(1, v) + rest) == im_message_merge(MessageModel { from_uid: v, ..acc }, rest),
{
    lemma_varint_field_roundtrip(1, v as u64, rest);
    lemma_int64_cast_roundtrip(v);
    assert((opt_int64_bytes(1, v) + rest).len() > 0);
}

proof fn lemma_im_message_merge_to_uid_list(acc: MessageModel, v: Seq<i64>, rest: Seq<u8>)
    requires
        v.len() > 0,
        varints_bytes(v).len() <= u64::MAX,
    ensures
        im_message_merge(acc, packed_int64_bytes(2, v) + rest) == im_message_merge(MessageModel { to_uid_list: acc.to_uid_list + v, ..acc }, rest),
{
    lemma_packed_int64_roundtrip(2, v, rest);
    assert((packed_int64_bytes(2, v) + rest).len() > 0);
}

proof fn lemma_im_message_merge_content(acc: MessageModel, v: Seq<char>, rest: Seq<u8>)
    requires
        v.len() != 0,
        encode_utf8(v).len() <= u64::MAX,
    ensures
        im_message_merge(acc, opt_string_bytes(3, v) + rest) == im_message_merge(MessageModel { content: v, ..acc }, rest),
{
    lemma_string_field_roundtrip(3, v, rest);
    assert((opt_string_bytes(3, v) + rest).len() > 0);
}

proof fn lemma_im_message_merge_room_id(acc: MessageModel, v: i64, rest: Seq<u8>)
    requires
        v != 0,
    ensures
        im_message_merge(acc, opt_int64_bytes(4, v) + rest) == im_message_merge(MessageModel { room_id: v, ..acc }, rest),
{
    lemma_varint_field_roundtrip(4, v as u64, rest);
    lemma_int64_cast_roundtrip(v);
    assert((opt_int64_bytes(4, v) + rest).len() > 0);
}

/// A `Message` is read back from its own bytes.
pub proof fn law_im_message_roundtrip(m: MessageModel)
    requires
        varints_bytes(m.to_uid_list).len() <= u64::MAX,
        encode_utf8(m.content).len() <= u64::MAX,
    ensures
        im_message_decode(im_message_bytes(m)) == Some(m),
{
    let empty = Seq::<u8>::empty();
    let p0 = opt_int64_bytes(1, m.from_uid);
    let p1 = packed_int64_bytes(2, m.to_uid_list);
    let p2 = opt_string_bytes(3, m.content);
    let p3 = opt_int64_bytes(4, m.room_id);
    let s3 = p3 + empty;
    let s2 = p2 + s3;
    let s1 = p1 + s2;
    let s0 = p0 + s1;
    assert(im_message_bytes(m) =~= s0);
    let a0 = im_message_default();
    let a1 = MessageModel { from_uid: m.from_uid, ..a0 };
    let a2 = MessageModel { to_uid_list: a1.to_uid_list + m.to_uid_list, ..a1 };
    let a3 = MessageModel { content: m.content, ..a2 };
    let a4 = MessageModel { room_id: m.room_id, ..a3 };
    if m.from_uid != 0 {
        lemma_im_message_merge_from_uid(a0, m.from_uid, s1);
    } else {
        assert(s0 =~= s1);
        assert(a1 == a0);
    }
    if m.to_uid_list.len() > 0 {
        lemma_im_message_merge_to_uid_list(a1, m.to_uid_list, s2);
        assert(a2.to_uid_list =~= m.to_uid_list);
    } else {
        assert(s1 =~= s2);
        assert(a2.to_uid_list =~= a1.to_uid_list);
        assert(a2 == a1);
    }
    if m.content.len() != 0 {
        lemma_im_message_merge_content(a2, m.content, s3);
    } else {
        assert(s2 =~= s3);
        assert(m.content =~= a2.content);
        assert(a3 == a2);
    }
    if m.room_id != 0 {
        lemma_im_message_merge_room_id(a3, m.room_id, empty);
    } else {
        assert(s3 =~= empty);
        assert(a4 == a3);
    }
    assert(a4.to_uid_list =~= m.to_uid_list);
    assert(a4.content =~= m.content);
    assert(a4 == m);
}

proof fn lemma_remote_push_req_merge_uid(acc: RemotePushReqModel, v: i64, rest: Seq<u8>)
    requires
        v != 0,
    ensures
        remote_push_req_merge(acc, opt_int64_bytes(1, v) + rest) == remote_push_req_merge(RemotePushReqModel { uid: v, ..acc }, rest),
{
    lemma_varint_field_roundtrip(1, v as u64, rest);
    lemma_int64_cast_roundtrip(v);
    assert((opt_int64_bytes(1, v) + rest).len() > 0);
}

proof fn lemma_remote_push_req_merge_packet_bin(acc: RemotePushReqModel, v: Seq<u8>, rest: Seq<u8>)
    requires
        v.len() != 0,
        v.len() <= u64::MAX,
    ensures
        remote_push_req_merge(acc, opt_bytes_bytes(2, v) + rest) == remote_push_req_merge(RemotePushReqModel { packet_bin: v, ..acc }, rest),
{
    lemma_len_field_roundtrip(2, v, rest);
    assert((opt_bytes_bytes(2, v) + rest).len() > 0);
}

/// A `RemotePushReq` is read back from its own bytes.
pub proof fn law_remote_push_req_roundtrip(m: RemotePushReqModel)
    requires
        m.packet_bin.len() <= u64::MAX,
    ensures
        remote_push_req_decode(remote_push_req_bytes(m)) == Some(m),
{
    let empty = Seq::<u8>::empty();
    let p0 = opt_int64_bytes(1, m.uid);
    let p1 = opt_bytes_bytes(2, m.packet_bin);
    let s1 = p1 + empty;
    let s0 = p0 + s1;
    assert(remote_push_req_bytes(m) =~= s0);
    let a0 = remote_push_req_default();
    let a1 = RemotePushReqModel { uid: m.uid, ..a0 };
    let a2 = RemotePushReqModel { packet_bin: m.packet_bin, ..a1 };
    if m.uid != 0 {
        lemma_remote_push_req_merge_uid(a0, m.uid, s1);
    } else {
        assert(s0 =~= s1);
        assert(a1 == a0);
    }
    if m.packet_bin.len() != 0 {
        lemma_remote_push_req_merge_packet_bin(a1, m.packet_bin, empty);
    } else {
        assert(s1 =~= empty);
        assert(m.packet_bin =~= a1.packet_bin);
        assert(a2 == a1);
    }
    assert(a2.packet_bin =~= m.packet_bin);
    assert(a2 == m);
}

proof fn lemma_remote_push_resp_merge_success(acc: RemotePushRespModel, v: bool, rest: Seq<u8>)
    requires
        v,
    ensures
        remote_push_resp_merge(acc, opt_bool_bytes(1, v) + rest) == remote_push_resp_merge(RemotePushRespModel { success: v, ..acc }, rest),
{
    lemma_varint_field_roundtrip(1, 1u64, rest);
    assert((opt_bool_bytes(1, v) + rest).len() > 0);
}

proof fn lemma_remote_push_resp_merge_msg(acc: RemotePushRespModel, v: Seq<char>, rest: Seq<u8>)
    requires
        v.len() != 0,
        encode_utf8(v).len() <= u64::MAX,
    ensures
        remote_push_resp_merge(acc, opt_string_bytes(2, v) + rest) == remote_push_resp_merge(RemotePushRespModel { msg: v, ..acc }, rest),
{
    lemma_string_field_roundtrip(2, v, rest);
    assert((opt_string_bytes(2, v) + rest).len() > 0);
}

/// A `RemotePushResp` is read back from its own bytes.
pub proof fn law_remote_push_resp_roundtrip(m: RemotePushRespModel)
    requires
        encode_utf8(m.msg).len() <= u64::MAX,
    ensures
        remote_push_resp_decode(remote_push_resp_bytes(m)) == Some(m),
{
    let empty = Seq::<u8>::empty();
    let p0 = opt_bool_bytes(1, m.success);
    let p1 = opt_string_bytes(2, m.msg);
    let s1 = p1 + empty;
    let s0 = p0 + s1;
    assert(remote_push_resp_bytes(m) =~= s0);
    let a0 = remote_push_resp_default();
    let a1 = RemotePushRespModel { success: m.success, ..a0 };
    let a2 = RemotePushRespModel { msg: m.msg, ..a1 };
    if m.success {
        lemma_remote_push_resp_merge_success(a0, m.success, s1);
    } else {
        assert(s0 =~= s1);
        assert(a1 == a0);
    }
    if m.msg.len() != 0 {
        lemma_remote_push_resp_merge_msg(a1, m.msg, empty);
    } else {
        assert(s1 =~= empty);
        assert(m.msg =~= a1.msg);
        assert(a2 == a1);
    }
    assert(a2.msg =~= m.msg);
    assert(a2 == m);
}

/// A key read from the front of `s` takes at least one byte and no more than `s` has.
pub proof fn lemma_key_parse_bounds(s: Seq<u8>)
    ensures
        key_parse(s) matches Some((tag, wt, n)) ==> 1 <= n <= s.len() && wt <= 5,
{
    lemma_varint_parse_bounds(s);
}

/// A field value read after its key takes no more bytes than there are.
pub proof fn lemma_field_bounds(tag: u32, wt: u8, r: Seq<u8>)
    ensures
        varint_field_parse(wt, r) matches Some((v, n)) ==> n <= r.len(),
        len_field_parse(wt, r) matches Some((b, n)) ==> n <= r.len(),
        string_field_parse(wt, r) matches Some((b, n)) ==> n <= r.len(),
        repeated_int64_parse(wt, r) matches Some((b, n)) ==> n <= r.len(),
        skip_field_len(wt, r, skip_group_len(tag, r)) matches Some(n) ==> n <= r.len(),
{
    lemma_varint_parse_bounds(r);
}

} // verus!
