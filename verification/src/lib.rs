//! Decision logic of a throughput benchmarking server.
//!
//! The server answers two text commands, over TCP and over UDP: one asks it
//! to stream filler bytes for a fixed window, the other to count the bytes
//! the peer sends during such a window. This crate holds every rule of that
//! protocol as functions from state and event to next state and action; the
//! program around it owns the sockets, the clock and the tasks.
//!
//! - [`command`]: the grammar of a request.
//! - [`uploads`]: the table of upload measurements, one per peer.
//! - [`dispatcher`]: what the UDP receive loop does with each datagram.
//! - [`burst`]: the paced sender behind a UDP download.
//! - [`tcp`]: the command loop and the two phases of a TCP connection.
//! - [`acceptor`]: what the TCP accept loop does with each outcome.
//! - [`clock`], [`count`], [`peer`], [`wire`]: time, byte counters, peer
//!   addresses, and the constants and payloads of the protocol.
//!
//! No function here performs I/O, sleeps or reads a clock, and none has a
//! precondition: each takes the time as an argument and can be called with
//! any value of its types.

pub mod acceptor;
pub mod burst;
pub mod clock;
pub mod command;
pub mod count;
pub mod dispatcher;
pub mod peer;
pub mod tcp;
pub mod uploads;
pub mod wire;
