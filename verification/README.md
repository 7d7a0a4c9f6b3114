# bbr_injector

Injects compact-proof gossip into a fixed set of Chia full nodes from a local
proof archive, and answers the nodes' `request_compact_vdf` with
`respond_compact_vdf` payloads from that archive.

The decisions are a library verified with Verus (`src/`); the process around
it (`app/`) does the I/O: WebSocket sessions, SQLite reads, the HTTP control
API, the persisted state file and the toy-node test mode.

## Layout

- `src/in_flight.rs`: the persisted runtime state and its setters.
- `src/config.rs`: configuration values, defaults and validation.
- `src/archive.rs`: archive rows and events, field numbers.
- `src/wire.rs`: the Streamable wire format (big-endian integers, length-prefixed
  payloads, framed messages, the compact-VDF body) and its round-trip lemmas.
- `src/messages.rs`: message building and parsing through `chia-protocol`, the
  key that ties a request to its announcement.
- `src/peer.rs`: a peer session's handshake, inbound dispatch, reconnect backoff.
- `src/pending.rs`: sent announcements awaiting a request (TTL and size bound).
- `src/proofs.rs`: the bounded FIFO proof cache and proof-serving counters.
- `src/injector.rs`: the rate-limited send scheduler as a state machine.
- `src/metrics.rs`: counters, gauges and duration statistics.
- `src/strings.rs`: small verified helpers over string lists.
- `src/testing.rs`: event selection and verdicts of the toy-node test.
- `tests/`: scenario tests for each module.
- `app/`: the binary.
