//! The SOCKS5 side of the front end: its messages and their codecs.

pub mod message;
pub mod codec;
