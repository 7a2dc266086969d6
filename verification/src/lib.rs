//! The verified core of a byte-transparent TCP relay.
//!
//! A relay accepts connections, dials a fixed target for each, and carries
//! bytes both ways until both sides are done. This crate holds what such a
//! relay decides and computes, and proves it; sockets, files and tasks are
//! left to the program that uses it.
//!
//! - [`hexdump`] renders a chunk of bytes as lines of offset, hex and
//!   printable characters.
//! - [`direction`] names the two directions of a connection and their labels.
//! - [`transfer`] drives one direction: it is told the outcome of each read,
//!   dump and write, and says what to do next.
//! - [`trace`] states what holds of whole runs of a transfer: the bytes
//!   handed on are the bytes taken in, the count is the number of bytes
//!   written, and dumping changes neither.
//! - [`relay`] puts the results of the two directions together.
//! - [`config`] holds the settings, and [`lifecycle`] says how far each kind
//!   of failure reaches.
//! - [`text`] states what is taken on trust of the standard library.

pub mod config;
pub mod direction;
pub mod hexdump;
pub mod lifecycle;
pub mod relay;
pub mod text;
pub mod trace;
pub mod transfer;
