//! Framing of packets on a byte stream: a four-byte little-endian length, then the
//! packet's protobuf encoding.

use crate::pb::{law_packet_roundtrip, packet_bytes, packet_decode, Packet, PacketModel};
use bytes::BytesMut;
use vstd::prelude::*;

verus! {

/// The growable byte buffer of `bytes`.
#[verifier::external_type_specification]
#[verifier::external_body]
pub struct ExBytesMut(BytesMut);

/// The I/O error of std.
#[verifier::external_type_specification]
#[verifier::external_body]
pub struct ExIoError(std::io::Error);

/// The bytes a `BytesMut` holds, front first.
pub uninterp spec fn bytes_mut_view(b: BytesMut) -> Seq<u8>;

/// Calls `BytesMut::len`. Claimed: the count of bytes held.
#[verifier::external_body]
fn buf_len(b: &BytesMut) -> (r: usize)
    ensures
        r == bytes_mut_view(*b).len(),
{
    b.len()
}

/// Calls `BytesMut::new`. Claimed: the buffer is empty.
#[verifier::external_body]
fn buf_new() -> (r: BytesMut)
    ensures
        bytes_mut_view(r) == Seq::<u8>::empty(),
{
    BytesMut::new()
}

/// Reads one byte through `BytesMut`'s slice view. Claimed: the byte at index `i`.
#[verifier::external_body]
fn buf_byte(b: &BytesMut, i: usize) -> (r: u8)
    requires
        i < bytes_mut_view(*b).len(),
    ensures
        r == bytes_mut_view(*b)[i as int],
{
    b[i]
}

/// Calls `Buf::advance` on a `BytesMut`. Claimed: the first `n` bytes are dropped.
#[verifier::external_body]
fn buf_advance(b: &mut BytesMut, n: usize)
    requires
        n <= bytes_mut_view(*old(b)).len(),
    ensures
        bytes_mut_view(*final(b)) == bytes_mut_view(*old(b)).skip(n as int),
{
    bytes::Buf::advance(b, n)
}

/// Calls `BytesMut::split_to`. Claimed: the first `at` bytes are handed out and the
/// buffer keeps the rest.
#[verifier::external_body]
fn buf_split_to(b: &mut BytesMut, at: usize) -> (r: BytesMut)
    requires
        at <= bytes_mut_view(*old(b)).len(),
    ensures
        bytes_mut_view(r) == bytes_mut_view(*old(b)).take(at as int),
        bytes_mut_view(*final(b)) == bytes_mut_view(*old(b)).skip(at as int),
{
    b.split_to(at)
}

/// Borrows the bytes of a `BytesMut` as a slice. Claimed: the slice holds them all.
#[verifier::external_body]
fn buf_as_slice(b: &BytesMut) -> (r: &[u8])
    ensures
        r@ == bytes_mut_view(*b),
{
    &b[..]
}

/// Calls `BufMut::put_u32_le` on a `BytesMut`. Claimed: the four little-endian bytes
/// of `v` are appended.
#[verifier::external_body]
fn buf_put_u32_le(b: &mut BytesMut, v: u32)
    requires
        bytes_mut_view(*old(b)).len() + 4 <= usize::MAX,
    ensures
        bytes_mut_view(*final(b)) == bytes_mut_view(*old(b)) + u32_le_bytes(v),
{
    bytes::BufMut::put_u32_le(b, v)
}

/// Calls `BufMut::put_slice` on a `BytesMut`. Claimed: the bytes of `s` are appended.
#[verifier::external_body]
fn buf_put_slice(b: &mut BytesMut, s: &[u8])
    requires
        bytes_mut_view(*old(b)).len() + s@.len() <= usize::MAX,
    ensures
        bytes_mut_view(*final(b)) == bytes_mut_view(*old(b)) + s@,
{
    bytes::BufMut::put_slice(b, s)
}

/// A new, empty buffer for frames.
pub fn new_frame_buffer() -> (r: BytesMut)
    ensures
        bytes_mut_view(r) == Seq::<u8>::empty(),
{
    buf_new()
}

/// The count of bytes a frame buffer holds.
pub fn frame_buffer_len(b: &BytesMut) -> (r: usize)
    ensures
        r == bytes_mut_view(*b).len(),
{
    buf_len(b)
}

/// The four little-endian bytes of `v`.
pub open spec fn u32_le_bytes(v: u32) -> Seq<u8> {
    seq![
        (v % 256) as u8,
        ((v / 256) % 256) as u8,
        ((v / 65536) % 256) as u8,
        (v / 16777216) as u8,
    ]
}

/// The number four little-endian bytes stand for.
pub open spec fn le_u32(b0: u8, b1: u8, b2: u8, b3: u8) -> nat {
    (b0 + 256 * b1 + 65536 * b2 + 16777216 * b3) as nat
}

/// The body length a frame header at the front of `s` announces.
pub open spec fn frame_len(s: Seq<u8>) -> nat
    recommends
        s.len() >= 4,
{
    le_u32(s[0], s[1], s[2], s[3])
}

/// `s` holds a whole frame: the header and as many body bytes as it announces.
pub open spec fn frame_ready(s: Seq<u8>) -> bool {
    s.len() >= 4 && s.len() - 4 >= frame_len(s)
}

/// The body of the frame at the front of `s`.
pub open spec fn frame_body(s: Seq<u8>) -> Seq<u8> {
    s.subrange(4, 4 + frame_len(s) as int)
}

/// What follows the frame at the front of `s`.
pub open spec fn frame_rest(s: Seq<u8>) -> Seq<u8> {
    s.skip(4 + frame_len(s) as int)
}

/// The frame of a packet: the length of its encoding, then the encoding.
pub open spec fn frame_bytes(p: PacketModel) -> Seq<u8> {
    u32_le_bytes(packet_bytes(p).len() as u32) + packet_bytes(p)
}

/// A failure of the codec.
#[derive(Debug)]
pub enum CodecError {
    /// An I/O failure of the stream under the codec.
    Io(std::io::Error),
    /// A frame's body is not a packet's encoding.
    ProtoBuf(prost::DecodeError),
}

/// Cuts packets out of a byte stream and writes packets into one.
#[derive(Clone, Copy, Debug)]
pub struct Codec {}

impl Codec {
    /// Takes the first whole frame off `src` and decodes its body. Where `src` does not
    /// yet hold a whole frame, nothing is taken and the result is `None`. Where the body
    /// is not a packet, the frame is taken all the same and the result is an error.
    pub fn decode(&mut self, src: &mut BytesMut) -> (r: Result<Option<Packet>, CodecError>)
        ensures
            ({
                let s = bytes_mut_view(*old(src));
                if !frame_ready(s) {
                    &&& r matches Ok(None)
                    &&& bytes_mut_view(*final(src)) == s
                } else {
                    &&& bytes_mut_view(*final(src)) == frame_rest(s)
                    &&& match packet_decode(frame_body(s)) {
                        Some(p) => r matches Ok(Some(x)) && x@ == p,
                        None => r matches Err(CodecError::ProtoBuf(_)),
                    }
                }
            }),
    {
        let ghost s = bytes_mut_view(*src);
        let n = buf_len(src);
        if n < 4 {
            return Ok(None);
        }
        let b0 = buf_byte(src, 0);
        let b1 = buf_byte(src, 1);
        let b2 = buf_byte(src, 2);
        let b3 = buf_byte(src, 3);
        let body_len: u32 = b0 as u32 + 256 * (b1 as u32) + 65536 * (b2 as u32) + 16777216 * (
        b3 as u32);
        let body_len = body_len as usize;
        if n - 4 < body_len {
            return Ok(None);
        }
        buf_advance(src, 4);
        let body = buf_split_to(src, body_len);
        proof {
            assert(bytes_mut_view(body) =~= frame_body(s));
            assert(bytes_mut_view(*src) =~= frame_rest(s));
        }
        match Packet::decode(buf_as_slice(&body)) {
            Ok(p) => Ok(Some(p)),
            Err(e) => Err(CodecError::ProtoBuf(e)),
        }
    }

    /// Appends the frame of `item` to `dst`: the length of its encoding as four
    /// little-endian bytes (cut to 32 bits), then the encoding.
    pub fn encode(&mut self, item: Packet, dst: &mut BytesMut) -> (r: Result<(), CodecError>)
        requires
            bytes_mut_view(*old(dst)).len() + 4 + packet_bytes(item@).len() <= usize::MAX,
        ensures
            r is Ok,
            bytes_mut_view(*final(dst)) == bytes_mut_view(*old(dst)) + frame_bytes(item@),
    {
        let raw = item.encode_to_vec();
        buf_put_u32_le(dst, raw.len() as u32);
        buf_put_slice(dst, raw.as_slice());
        proof {
            assert(bytes_mut_view(*dst) =~= bytes_mut_view(*old(dst)) + frame_bytes(item@));
        }
        Ok(())
    }
}

/// The header of a frame reads back the length it was written with.
pub proof fn lemma_u32_le_roundtrip(v: u32)
    ensures
        ({
            let b = u32_le_bytes(v);
            le_u32(b[0], b[1], b[2], b[3]) == v
        }),
{
    let b = u32_le_bytes(v);
    assert(b[0] == v % 256);
    assert(b[1] == (v / 256) % 256);
    assert(b[2] == (v / 65536) % 256);
    assert(b[3] == v / 16777216);
    assert(v == v % 256 + 256 * ((v / 256) % 256) + 65536 * ((v / 65536) % 256) + 16777216 * (v
        / 16777216)) by (nonlinear_arith);
}

/// A packet's frame, whatever follows it, decodes to the packet and leaves what follows:
/// the codec reads back what it writes. The encoding's length must fit the 32-bit header.
pub proof fn law_frame_roundtrip(p: PacketModel, rest: Seq<u8>)
    requires
        packet_bytes(p).len() <= u32::MAX,
    ensures
        frame_ready(frame_bytes(p) + rest),
        frame_body(frame_bytes(p) + rest) == packet_bytes(p),
        frame_rest(frame_bytes(p) + rest) == rest,
        packet_decode(frame_body(frame_bytes(p) + rest)) == Some(p),
{
    let raw = packet_bytes(p);
    let s = frame_bytes(p) + rest;
    lemma_u32_le_roundtrip(raw.len() as u32);
    assert(frame_len(s) == raw.len());
    assert(frame_body(s) =~= raw);
    assert(frame_rest(s) =~= rest);
    assert(p.body.len() <= raw.len()) by {
        if p.body.len() != 0 {
            assert(raw =~= raw.subrange(0, raw.len() - p.body.len()) + p.body);
        }
    }
    law_packet_roundtrip(p);
}

/// Any proper prefix of a packet's frame is not yet a whole frame: the codec waits for
/// more bytes.
pub proof fn law_partial_frame_waits(p: PacketModel, k: nat)
    requires
        packet_bytes(p).len() <= u32::MAX,
        k < frame_bytes(p).len(),
    ensures
        !frame_ready(frame_bytes(p).take(k as int)),
{
    let raw = packet_bytes(p);
    let s = frame_bytes(p).take(k as int);
    lemma_u32_le_roundtrip(raw.len() as u32);
    if k >= 4 {
        assert(frame_len(s) == raw.len());
    }
}


/// The packets that decoding `s` frame after frame yields, up to the first point
/// where no whole frame is left or a body is not a packet.
pub open spec fn decode_stream(s: Seq<u8>) -> Seq<PacketModel>
    decreases s.len(),
{
    if frame_ready(s) {
        match packet_decode(frame_body(s)) {
            Some(p) => seq![p] + decode_stream(frame_rest(s)),
            None => Seq::empty(),
        }
    } else {
        Seq::empty()
    }
}

/// The frames of `ps`, one after another.
pub open spec fn frames_bytes(ps: Seq<PacketModel>) -> Seq<u8>
    decreases ps.len(),
{
    if ps.len() == 0 {
        Seq::empty()
    } else {
        frame_bytes(ps[0]) + frames_bytes(ps.drop_first())
    }
}

/// Packets encoded one after another into a stream are decoded from it one after
/// another, in the order they were written. Each encoding must fit the 32-bit header.
pub proof fn law_frames_decode_in_order(ps: Seq<PacketModel>)
    requires
        forall|i: int| 0 <= i < ps.len() ==> packet_bytes(#[trigger] ps[i]).len() <= u32::MAX,
    ensures
        decode_stream(frames_bytes(ps)) == ps,
    decreases ps.len(),
{
    if ps.len() == 0 {
        assert(!frame_ready(frames_bytes(ps)));
        assert(decode_stream(frames_bytes(ps)) =~= ps);
    } else {
        let rest = frames_bytes(ps.drop_first());
        law_frame_roundtrip(ps[0], rest);
        assert forall|i: int| 0 <= i < ps.drop_first().len() implies packet_bytes(
            #[trigger] ps.drop_first()[i],
        ).len() <= u32::MAX by {
            assert(ps.drop_first()[i] == ps[i + 1]);
        }
        law_frames_decode_in_order(ps.drop_first());
        assert(decode_stream(frames_bytes(ps)) =~= seq![ps[0]] + ps.drop_first());
        assert(seq![ps[0]] + ps.drop_first() =~= ps);
    }
}

/// The frames of a list with one more packet at its end are the frames of the list,
/// then that packet's frame.
proof fn lemma_frames_push(ps: Seq<PacketModel>, p: PacketModel)
    ensures
        frames_bytes(ps.push(p)) == frames_bytes(ps) + frame_bytes(p),
    decreases ps.len(),
{
    if ps.len() == 0 {
        assert(ps.push(p).drop_first() =~= Seq::<PacketModel>::empty());
        assert(frames_bytes(ps.push(p).drop_first()) == Seq::<u8>::empty());
        assert(frames_bytes(ps.push(p)) =~= frames_bytes(ps) + frame_bytes(p));
    } else {
        lemma_frames_push(ps.drop_first(), p);
        assert(ps.push(p).drop_first() =~= ps.drop_first().push(p));
        assert(ps.push(p)[0] == ps[0]);
        assert(frames_bytes(ps.push(p)) =~= frames_bytes(ps) + frame_bytes(p));
    }
}

/// Encoding packets one after another into an empty buffer builds the frames of the
/// list: the empty buffer holds the frames of no packet, and where the buffer holds
/// the frames of the first `i` packets, appending the next packet's frame, as
/// `Codec::encode` does, makes it hold the frames of the first `i + 1`.
pub proof fn law_encodes_build_frames(ps: Seq<PacketModel>, i: int)
    requires
        0 <= i < ps.len(),
    ensures
        frames_bytes(ps.take(0)) == Seq::<u8>::empty(),
        frames_bytes(ps.take(i)) + frame_bytes(ps[i]) == frames_bytes(ps.take(i + 1)),
        frames_bytes(ps.take(ps.len() as int)) == frames_bytes(ps),
{
    assert(ps.take(0).len() == 0);
    assert(ps.take(i + 1) =~= ps.take(i).push(ps[i]));
    lemma_frames_push(ps.take(i), ps[i]);
    assert(ps.take(ps.len() as int) =~= ps);
}

/// Decoding a stream of frames one call at a time: after the first `i` packets of
/// `ps` have been taken, the buffer holds the frames of the others; while one is left,
/// a whole frame stands at the front, its body decodes to the next packet and taking
/// it leaves the frames of those after it; once all are taken the buffer is empty and
/// holds no whole frame, so a further call waits. Each encoding must fit the 32-bit
/// header.
pub proof fn law_frames_drain(ps: Seq<PacketModel>, i: int)
    requires
        forall|k: int| 0 <= k < ps.len() ==> packet_bytes(#[trigger] ps[k]).len() <= u32::MAX,
        0 <= i <= ps.len(),
    ensures
        i == 0 ==> frames_bytes(ps.skip(i)) == frames_bytes(ps),
        i < ps.len() ==> {
            &&& frame_ready(frames_bytes(ps.skip(i)))
            &&& packet_decode(frame_body(frames_bytes(ps.skip(i)))) == Some(ps[i])
            &&& frame_rest(frames_bytes(ps.skip(i))) == frames_bytes(ps.skip(i + 1))
        },
        i == ps.len() ==> frames_bytes(ps.skip(i)).len() == 0 && !frame_ready(
            frames_bytes(ps.skip(i)),
        ),
{
    if i == 0 {
        assert(ps.skip(0) =~= ps);
    }
    if i < ps.len() {
        let tail = ps.skip(i);
        assert(tail[0] == ps[i]);
        assert(tail.drop_first() =~= ps.skip(i + 1));
        law_frame_roundtrip(ps[i], frames_bytes(ps.skip(i + 1)));
    } else {
        assert(ps.skip(i).len() == 0);
    }
}

} // verus!
