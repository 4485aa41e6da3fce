//! Transport for a secure element that speaks a single-wire interface through
//! a UART.
//!
//! The device has one line for both directions. The host writes pulse symbols
//! at the pace of the UART, reads its own echo away, and asks for the reply
//! with a transmit flag. The line is noisy and the timing tight, so every
//! exchange is tried again within fixed bounds.
//!
//! The crate holds the decisions of the transport and performs no input or
//! output. Each operation is a value that is taken one step at a time: a step
//! names the next [`port::Action`] for the host to carry out, and is told the
//! [`port::Event`] that came of it. What a step does is stated over the views
//! of these values, and the laws of the transport are proved of those
//! statements.
//!
//! - [`codec`]: logical bytes to pulse symbols and back.
//! - [`frame`]: the bytes of the wire, and how a reply is cut out of a read.
//! - [`port`]: the actions and events, and the two profiles of the port.
//! - [`retry`]: the bounds on attempts.
//! - [`sequencer`]: the wake and the sleep pulse.
//! - [`exchange`]: one frame out, one reply back.
//! - [`engine`]: a command through wake, exchange and reading, tried again
//!   where that may help.
//! - [`sign`]: the two phases of a signature.
//! - [`ecc`]: the device, where every operation begins.
//! - [`buffer`], [`digest`]: what is taken on trust from the `bytes` and
//!   `sha2` crates.

pub mod buffer;
pub mod codec;
pub mod digest;
pub mod ecc;
pub mod engine;
pub mod error;
pub mod exchange;
pub mod frame;
pub mod port;
pub mod retry;
pub mod sequencer;
pub mod sign;
