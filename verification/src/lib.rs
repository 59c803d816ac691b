//! A SOCKS5 relay core: the wire codec, the handshake, the request parser,
//! the destination policy and the per-connection state machine, all free of
//! I/O. A driver feeds it what it read from the sockets and performs the
//! actions it answers with.
//!
//! - `wire`: the bytes that stand for methods, commands, address kinds and
//!   reply statuses, and 16-bit integers in network byte order.
//! - `codec`: greeting, method selection, request and reply.
//! - `negotiation`: the selection of the authentication method.
//! - `framing`: the reader that collects a message from the pieces of a
//!   stream.
//! - `parser`: the requests that the server accepts.
//! - `connect`: the destination of a request and the attempts to reach it.
//! - `session`: the state machine of one connection.
//! - `guarantees`: what holds of every session.

pub mod wire;
pub mod codec;
pub mod negotiation;
pub mod framing;
pub mod parser;
pub mod connect;
pub mod session;
pub mod guarantees;
