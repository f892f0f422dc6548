//! The client side of a WebSocket transport.
//!
//! A stream of bytes is carried in WebSocket binary frames.  This crate holds
//! what the transport decides: which request asks for the upgrade
//! ([`client`]), which answer to it is accepted ([`handshake`]), what each
//! received frame means for the stream and which frames are sent when
//! ([`conn`]).  What each operation of a connection is for is proved in
//! [`operations`], and what holds from its first call to its last in [`session`].
//!
//! Nothing here touches a socket.  A driver performs the actions that the
//! functions return and reports what came of them.

pub mod buffer;
pub mod client;
pub mod config;
pub mod conn;
pub mod error;
pub mod frame;
pub mod handshake;
pub mod header_table;
pub mod http_message;
pub mod operations;
pub mod session;
pub mod socket;
pub mod text;
