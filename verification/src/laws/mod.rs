//! What holds of every output, said of what goes in and what comes out.
pub mod attempts;
pub mod batches;
pub mod calls;
pub mod collectors;
pub mod console;
pub mod datagrams;
pub mod exports;
pub mod files;
pub mod kafka;
pub mod ltp;
pub mod merging;
pub mod messages;
pub mod peers;
pub mod reading;
pub mod rounds;
pub mod steps;
