//! A remote agent's protocol core.
//!
//! A client sends one length-prefixed request and receives one length-prefixed
//! textual answer. This crate holds everything about that exchange that can be
//! decided without touching a socket, a disk or a process:
//!
//! * [`framing`]: the envelope, a four-byte big-endian length before the payload;
//! * [`command`]: the three commands and their compact binary encoding;
//! * [`text`]: the few operations on text that the answers need;
//! * [`backup`]: the naming of the single backup slot beside each file;
//! * [`executor`]: the step function that turns a command into requests to the
//!   host (probe, rename, write, list, run) and the host's reports into the answer;
//! * [`connection`]: the whole exchange on one connection, from the first byte
//!   of the request to the frame of the answer;
//! * [`model`]: a mathematical file system on which the executor's behaviour is
//!   stated and proved.
//!
//! The program around this crate owns the listener, reads and writes the stream,
//! performs each request and hands back what happened.

pub mod backup;
pub mod command;
pub mod connection;
pub mod executor;
pub mod framing;
pub mod model;
pub mod text;
