//! Datagram pumps and the session driver for one QUIC connection over a
//! non-blocking UDP socket.
//!
//! The library decides; it never touches a socket, a poller or the protocol
//! engine. Each part names the next thing to do, the caller does it and
//! reports what happened:
//!
//! - [`outbound`]: the pump that drains the connection's datagrams into the
//!   transport ([`send`], [`send_to`]);
//! - [`inbound`]: the pump that drains the transport's datagrams into the
//!   connection, or runs its timeout ([`recv`], [`recv_from`]);
//! - [`streams`]: the reader that turns stream data into text
//!   ([`read_streams`]);
//! - [`driver`]: the order of a whole session, for the initiator and for the
//!   responder, with [`runs`] for what holds of every run of it;
//! - [`close`], [`peer`], [`hex`]: the close requests, the peer's address as
//!   plain values, and hexadecimal rendering ([`close_conn`], [`hex_dump`]).
//!
//! Every decision is an executable function whose result is fixed by a spec
//! function, and what a whole pass or a whole session does is stated over
//! those and proved for all answers that the connection and the transport
//! can give.

pub mod close;
pub mod driver;
pub mod hex;
pub mod inbound;
pub mod outbound;
pub mod peer;
pub mod runs;
pub mod streams;

pub use close::close_conn;
pub use hex::hex_dump;
pub use inbound::{recv, recv_from};
pub use outbound::{send, send_to};
pub use streams::read_streams;
