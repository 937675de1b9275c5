//! A SOCKS5 proxy split into a local front end and a remote back end that
//! talk over an encrypted, framed tunnel. This crate holds the wire formats,
//! the codecs and the decisions that the actors of the proxy take.
pub mod wire;
pub mod text;
pub mod socks;
pub mod crypto;
pub mod opt;
pub mod message;
pub mod frontend;
pub mod backend;
pub mod plain;
pub mod cli;
pub mod json;
pub mod ext;
pub mod kdf;
