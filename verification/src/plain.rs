//! The plaintext tunnel: frames without encryption, connections named by
//! 16-byte ids, and the decisions of its client and server.
pub mod message;

pub mod session;
