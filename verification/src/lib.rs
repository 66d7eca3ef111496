pub mod batched;
pub mod delivery;
pub mod error;
pub mod file;
pub mod file_path;
pub mod file_windows;
pub mod file_write;
pub mod flush_run;
pub mod framing;
pub mod kafka;
pub mod laws;
pub mod ltp;
pub mod ltp_config;
pub mod ltp_wire;
pub mod ltp_write;
pub mod metrics;
pub mod otlp;
pub mod peer_rotation;
pub mod peer_round;
pub mod persistent_conn;
pub mod props;
pub mod retry;
pub mod server_name;
pub mod stdout;
pub mod stdout_windows;
pub mod stream_attempt;
pub mod syslog_peers;
pub mod syslog_tcp;
pub mod syslog_tls;
pub mod syslog_udp;
pub mod tcp;
pub mod text;
pub mod tls;
pub mod udp;
pub mod udp_attempt;
pub mod udp_round;

pub use crate::framing::frame_with_newline;
