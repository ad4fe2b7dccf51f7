use bytes::BytesMut;
use rust_im::codec::{frame_buffer_len, new_frame_buffer, Codec, CodecError};
use rust_im::pb::{Op, Packet};

fn create_test_packet(len: u32, op: Op) -> Packet {
    Packet {
        len,
        op: op.code(),
        body: b"hello".to_vec(),
    }
}

#[test]
fn test_encode_decode_single() {
    let mut codec = Codec {};
    let mut buf = BytesMut::new();
    let pkt = create_test_packet(10, Op::Handshake);

    codec.encode(pkt.clone(), &mut buf).unwrap();
    let full_len = buf.len();
    assert_eq!(full_len, 4 + pkt.encoded_len());

    let decoded_pkt = codec.decode(&mut buf).unwrap().unwrap();
    assert_eq!(decoded_pkt.len, 10);
    assert_eq!(decoded_pkt.op, Op::Handshake.code());

    assert!(buf.is_empty());
}

#[test]
fn test_decode_partial_packet() {
    let mut codec = Codec {};
    let mut buf = BytesMut::new();
    let pkt = create_test_packet(10, Op::Handshake);

    codec.encode(pkt.clone(), &mut buf).unwrap();

    let full_len = buf.len();
    let mut partial_buf = buf.split_to(full_len / 2);
    let decoded_pkt = codec.decode(&mut partial_buf).unwrap();
    assert!(decoded_pkt.is_none());

    partial_buf.unsplit(buf);
    let decoded_pkt = codec.decode(&mut partial_buf).unwrap().unwrap();
    assert_eq!(decoded_pkt.len, 10);
    assert_eq!(decoded_pkt.op, Op::Handshake.code());

    assert!(partial_buf.is_empty());
}

#[test]
fn test_decode_multiple_packets() {
    let mut codec = Codec {};
    let mut buf = BytesMut::new();
    let pkt1 = create_test_packet(10, Op::Handshake);
    let pkt2 = create_test_packet(100, Op::Heartbeat);
    let pkt3 = create_test_packet(1000, Op::PushMsg);

    codec.encode(pkt1, &mut buf).unwrap();
    codec.encode(pkt2, &mut buf).unwrap();
    codec.encode(pkt3, &mut buf).unwrap();

    let decoded_pkt1 = codec.decode(&mut buf).unwrap().unwrap();
    assert_eq!(decoded_pkt1.len, 10);
    assert_eq!(decoded_pkt1.op, Op::Handshake.code());

    let decoded_pkt2 = codec.decode(&mut buf).unwrap().unwrap();
    assert_eq!(decoded_pkt2.len, 100);
    assert_eq!(decoded_pkt2.op, Op::Heartbeat.code());

    let decoded_pkt3 = codec.decode(&mut buf).unwrap().unwrap();
    assert_eq!(decoded_pkt3.len, 1000);
    assert_eq!(decoded_pkt3.op, Op::PushMsg.code());

    assert!(buf.is_empty());
}

#[test]
fn test_decode_empty_packet() {
    let mut codec = Codec {};
    let mut buf = BytesMut::new();

    let pkt = codec.decode(&mut buf).unwrap();
    assert!(pkt.is_none());
}

#[test]
fn frame_layout_is_length_then_encoding() {
    let mut codec = Codec {};
    let mut buf = BytesMut::new();
    let pkt = Packet { len: 10, op: 1, body: b"hello".to_vec() };
    codec.encode(pkt, &mut buf).unwrap();
    let expected: Vec<u8> = vec![
        11, 0, 0, 0, 0x08, 10, 0x10, 1, 0x1a, 5, b'h', b'e', b'l', b'l', b'o',
    ];
    assert_eq!(&buf[..], &expected[..]);
}

#[test]
fn decode_leaves_following_bytes() {
    let mut codec = Codec {};
    let mut buf = BytesMut::new();
    codec.encode(Packet { len: 7, op: 2, body: vec![1, 2, 3] }, &mut buf).unwrap();
    buf.extend_from_slice(&[9, 0]);
    let p = codec.decode(&mut buf).unwrap().unwrap();
    assert_eq!(p.len, 7);
    assert_eq!(p.op, 2);
    assert_eq!(p.body, vec![1, 2, 3]);
    assert_eq!(&buf[..], &[9u8, 0][..]);
    assert!(codec.decode(&mut buf).unwrap().is_none());
    assert_eq!(&buf[..], &[9u8, 0][..]);
}

#[test]
fn header_without_whole_body_waits() {
    let mut codec = Codec {};
    let mut buf = BytesMut::new();
    buf.extend_from_slice(&[5, 0, 0, 0, 0x08, 1]);
    assert!(codec.decode(&mut buf).unwrap().is_none());
    assert_eq!(buf.len(), 6);
}

#[test]
fn bad_body_is_an_error_and_is_consumed() {
    let mut codec = Codec {};
    let mut buf = BytesMut::new();
    // Field 1 with a length-delimited wire type: not a uint32.
    buf.extend_from_slice(&[3, 0, 0, 0, 0x0a, 0x01, 0x00, 0xAA]);
    match codec.decode(&mut buf) {
        Err(CodecError::ProtoBuf(_)) => {}
        other => panic!("unexpected: {:?}", other),
    }
    assert_eq!(&buf[..], &[0xAAu8][..]);
}

#[test]
fn empty_packet_frame_is_four_zero_bytes() {
    let mut codec = Codec {};
    let mut buf = BytesMut::new();
    codec.encode(Packet { len: 0, op: 0, body: vec![] }, &mut buf).unwrap();
    assert_eq!(&buf[..], &[0u8, 0, 0, 0][..]);
    let p = codec.decode(&mut buf).unwrap().unwrap();
    assert_eq!(p.len, 0);
    assert_eq!(p.op, 0);
    assert!(p.body.is_empty());
    assert!(buf.is_empty());
}

#[test]
fn frame_buffer_drains_then_waits() {
    let mut codec = Codec {};
    let mut buf = new_frame_buffer();
    assert_eq!(frame_buffer_len(&buf), 0);
    let a = create_test_packet(1, Op::SendMsg);
    let b = create_test_packet(2, Op::Kick);
    codec.encode(a.clone(), &mut buf).unwrap();
    assert_eq!(frame_buffer_len(&buf), 4 + a.encoded_len());
    codec.encode(b.clone(), &mut buf).unwrap();
    let da = codec.decode(&mut buf).unwrap().unwrap();
    assert_eq!((da.len, da.op, da.body), (a.len, a.op, a.body));
    let db = codec.decode(&mut buf).unwrap().unwrap();
    assert_eq!((db.len, db.op, db.body), (b.len, b.op, b.body));
    assert_eq!(frame_buffer_len(&buf), 0);
    assert!(codec.decode(&mut buf).unwrap().is_none());
}
