# rust_im

The connection layer of an instant-messaging gateway, written in Verus.

Clients connect over TCP (length-prefixed frames) or WebSocket and exchange
protobuf packets: a handshake that names the user, heartbeats, messages sent to
other users, and pushes delivered to them. Messages go through a queue; a push
reaches the user on the node where the user is connected, locally or through a
gRPC call to another node.

## Layout

- `src/` — the verified library.
  - `wire.rs`: varints, field keys and field payloads as spec functions; the
    field codecs of `prost` behind trusted wrappers.
  - `pb.rs`: the messages (`Packet`, `HandshakeReq`, `HandshakeResp`, `Message`,
    `RemotePushReq`, `RemotePushResp`), their encoders and decoders, and the
    proofs that each decodes its own encoding.
  - `codec.rs`: framing on a `BytesMut`, with the laws that a frame reads back
    the packet written, that a partial frame waits, and that frames come out in
    the order written.
  - `session.rs`: what a connection does with each packet and event.
  - `state.rs`, `room.rs`, `table.rs`: the table of online connections and the
    rooms, on `dashmap`.
  - `rpc.rs`, `push.rs`: routing decisions for pushes between nodes and from
    the queue.
  - `config.rs`, `cache.rs`, `registry.rs`, `text.rs`, `model.rs`,
    `service.rs`: configuration, cache and registry keys and records, decimal
    text, the user API's types and answers, and the user service: login,
    registration and the check of login tokens (bcrypt and `jsonwebtoken`
    behind trusted wrappers).
- `tests/` — tests of the library.
- `app/` — the programs: listeners, Redis, etcd, Kafka, gRPC transport, MySQL
  and the HTTP API, which hand plain values to the library.

Operation numbers on the wire: handshake 0, heartbeat 1, message 2, push 3,
kick 4. Packet fields: `len` = 1, `op` = 2, `body` = 3.
