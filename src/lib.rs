//! Reverse-tunnel multiplexer: the verified protocol engine.
//!
//! The library holds the wire formats (message codec, length framing, stream
//! cipher), the per-side session state machines that multiplex flows over one
//! control channel, the per-flow handler state machine, key provisioning and
//! the control-plane notification rules. Sockets, tasks and HTTP live in the
//! program around it.
pub mod bytes;
pub mod error;
pub mod frame;
pub mod protocol;
pub mod codec;
pub mod cipher;
pub mod table;
pub mod session;
pub mod flow;
pub mod channel;
pub mod handshake;
pub mod keys;
pub mod notify;

