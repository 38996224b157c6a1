# reflector

Server component that reflects laser-tagger messages: devices on the local network hear the
reflector's broadcasts, answer them, and are registered; the reflector then reaches each device
at the address its datagrams come from.

## Layout

- `src/` — the library, verified with Verus.
  - `engine.rs` — the core: its state, its systems, and the step that one message makes.
  - `systems/` — the systems (broadcast replies, infrastructure, hits, ignored messages) and the
    router that registers them.
  - `laws.rs` — what holds of every step of the core.
  - `game/state.rs`, `table.rs` — registered devices, in a table keyed by hardware id.
  - `message.rs` — the messages between core and transport.
  - `lg/` — the protocol messages.
  - `codec/` — their wire form (protocol-buffer encoding over prost's varints), with the proof
    that decoding what was encoded gives it back.
  - `transport/` — the transport's address book (with the rule that an observed address wins
    over a reported one), the broadcast announcement, and the answering transport.
  - `routing.rs` — the choice of a handler by kind of message.
  - `config.rs`, `api/`, `handlers/` — settings, the traits shared with the program, handlers.
- `app/` — the program: settings file, tokio transport and channels, the core's thread, ctrl-c.
- `tests/` — tests of the library.

## Wire schema

```proto
enum DeviceType { UNKNOWN = 0; REFLECTOR = 1; }
message SocketAddr { oneof ip { uint32 v4 = 1; bytes v6 = 2; } uint32 port = 3; }
message Broadcast { DeviceType device_type = 1; oneof reflector_addr { SocketAddr socket_addr = 2; } }
message BroadcastReply { DeviceType device_type = 1; oneof client_addr { SocketAddr socket_addr = 2; } }
message TargetHit { int32 from_id = 1; }
message Msg {
  string hid = 1;
  oneof inner { Broadcast broadcast = 2; BroadcastReply broadcast_reply = 3; TargetHit target_hit = 4; }
}
message Foo { int32 foole = 1; }
```

## Running

`Reflector.toml`:

```toml
[transport]
hid = "reflector"
bind_addr = { ip = "0.0.0.0", port = 3333 }
```
