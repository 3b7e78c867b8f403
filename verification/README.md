# tt_server

The connection layer of a tunnelling server, verified with Verus.

* `src/authentication/`, `src/credentials.rs`: who may connect.
* `src/connection_limiter.rs`, `src/revocation.rs`, `src/session_history.rs`: how many sessions a
  client may hold, how its sessions learn that it was removed, and what holds of them over time.
* `src/h3_frame.rs`, `src/h3_stream_write_policy.rs`: HTTP/3 DATA frames, and when a stream may be
  written to.
* `src/http_message.rs`, `src/quic_multiplexer/request.rs`: requests as they come in as header
  fields.
* `src/quic_token.rs`, `src/secrets.rs`, `src/quic_multiplexer/packets.rs`: address validation, and
  what becomes of packets of connections that are not known yet.
* `src/quic_multiplexer/multiplexer.rs`, `batch.rs`, `udp.rs`, `tls.rs`: the connections that share
  a UDP socket, and when each of them needs attention.
* `src/quic_multiplexer/socket.rs`, `streams.rs`, `events.rs`, `body_read.rs`: the streams of one
  connection.

The library decides; it does no input or output. `app/` holds the sockets, the clock, the locks and
the QUIC and TLS libraries: it performs what the library asks for and reports what came of it.

Functions named `law_...` state what holds of the library as a whole.
