//! Transport-level state machines for IMAP4rev1.
//!
//! The library never touches a stream. Each peer is a state machine that is fed
//! received bytes, hands out the bytes that wait to be written, and reports what
//! happened as events. Whoever owns the connection reads, writes and calls
//! `progress` again.

pub mod buffer;
pub mod client;
pub mod client_laws;
pub mod codec;
pub mod handle;
pub mod receive;
pub mod send;
pub mod send_command;
pub mod send_command_laws;
pub mod send_response;
pub mod server;
pub mod server_laws;
pub mod tasks;
pub mod types;
