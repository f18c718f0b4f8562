//! The decision core of an asynchronous HTTP GET client.
//!
//! A single reactor owns a table of in-flight connections, keyed by tokens,
//! and is driven by two kinds of input: messages submitted by client handles
//! and readiness events of the sockets. Every input is answered with the
//! actions that the surrounding event loop has to perform; the library itself
//! touches no socket.

pub mod address;
pub mod url;
pub mod connection;
pub mod table;
pub mod reactor;
pub mod client;
pub mod stream;
pub mod laws;
