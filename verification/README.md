# limpid_output

The decisions behind the outputs of a log pipeline, verified with Verus: how events
are framed, merged, addressed and retried, and what becomes of each of them.

`src/` is the verified library.

- `framing`, `ltp`, `ltp_wire`, `file_path`, `file`, `otlp::merge`: what goes out.
  Frames can be read back in one way; values in a file's path add no directories;
  merging keeps every record.
- `peer_rotation`, `peer_round`, `udp_attempt`, `udp_round`, `stream_attempt`,
  `persistent_conn`, `ltp_write`, `file_write`, `stdout`, `stdout_windows`, `udp`,
  `otlp::ship`: how it gets out. Each is a machine that takes in what came of one step
  and says which step comes next.
- `delivery`, `batched`, `flush_run`, `otlp::buffer`: what becomes of an event. Each one
  is delivered or given up, once, and counted once.
- `props`, `retry`, `tls`, `syslog_peers`, `syslog_udp`, `syslog_tcp`, `syslog_tls`,
  `tcp`, `kafka`, `ltp_config`, `otlp::config`, `otlp::http`, `otlp::grpc`,
  `otlp::single`: what a configuration means, and which error each wrong one gives.

Contracts that speak of an outside crate say so: names such as `server_name_accepts`
or `decoded_envelope` stand for what that crate returns.

Times are nanoseconds. A point in time counts from an origin that the caller fixes.

`app/` holds the sockets, files, clients and tasks that carry the steps out. `tests/`
runs the library on concrete values.
