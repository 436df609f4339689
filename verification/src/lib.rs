//! Management of background editor daemons: a registry built from the live
//! process table, socket-path resolution, lifecycle control (spawn and
//! signal-based termination), and a state machine that multiplexes a child
//! process's two output streams into one status line.

pub mod client;
pub mod clients;
pub mod config;
pub mod daemons;
pub mod errors;
pub mod standard_styled;
mod sys;
pub mod text;
