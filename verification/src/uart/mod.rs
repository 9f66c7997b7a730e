//! The serial line: framing, transactions and the way into upgrade mode.
pub mod console;
pub mod frame;
pub mod hearing;
pub mod wire;
pub mod leg;
pub mod line_laws;
pub mod txn;
pub mod monitor;
pub mod ports;
pub mod session_laws;
