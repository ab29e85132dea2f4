//! s80: a terminal-native latency/jitter visualizer, its logic verified.
//!
//! Self-clocked ping-pong: one probe in flight, the next sent the instant the
//! reply lands. It can't flood by construction; the output rate is the RTT.
//! `!` is a reply (colored by RTT), `.` a timeout, `,` a late reply
//! (repainted in place).
//!
//! The library decides; its caller owns the sockets, the clock and the
//! terminal. Time is nanoseconds on one monotonic clock.
//!
//! - `args`: the command line; `usage`: what its options do.
//! - `run`: a run as a state machine, from event to next state, action and
//!   text; `late`, `tune` and `stats` are its parts.
//! - `probe`, `icmp`, `udp`: what the probe engines put on the wire and make
//!   of what comes back.
//! - `color`, `term`, `report`, `text`: colors, the tick strip, and the words
//!   of a run.
//! - `conduct`: what a run does, event by event, in plain numbers.
//! - `pipe`: without a terminal, what a run writes holds no escape.
//! - `screen`, `picture`: a model of a terminal, and that what a run writes
//!   shows on it what the run knows.

pub mod args;
pub mod color;
pub mod conduct;
pub mod icmp;
pub mod late;
pub mod picture;
pub mod pipe;
pub mod probe;
pub mod report;
pub mod run;
pub mod screen;
pub mod stats;
pub mod term;
pub mod text;
pub mod tune;
pub mod udp;
pub mod usage;
