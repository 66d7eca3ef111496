//! What the OTLP outputs share, and the outputs over HTTP and over gRPC.
pub mod buffer;
pub mod config;
pub mod grouping;
pub mod grpc;
pub mod http;
pub mod laws;
pub mod merge;
pub mod model;
pub mod ship;
pub mod single;
