//! Congestion control and send-path tracing for a QUIC transport.

pub mod arith;
pub mod congestion;
pub mod connection;
pub mod gain;
pub mod send_path_trace;
pub mod time;
pub mod trace_decode;
pub mod wire;
