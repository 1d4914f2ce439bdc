//! The packet layer of a cross-chain swap protocol: the binary swap payload,
//! channel handshake checks, and the handlers that turn inbound packets,
//! acknowledgements, timeouts and replies into vault calls.
pub mod wire;
pub mod payload;
pub mod error;
pub mod channel;
pub mod vault_msg;
pub mod ibc;
pub mod amplified;
pub mod volatile;
