//! Interrupt-driven serial byte transport.
//!
//! A fixed-capacity circular byte store, a transport that pairs a transmit
//! and a receive store, and the per-interrupt protocol that decides whether
//! the transmit-ready interrupt stays unmasked. The hardware itself is not
//! touched here: every operation takes what the hardware reported as plain
//! values and hands back what has to be done to it.

pub mod fifo;
pub mod ring_buffer;
pub mod transport;
pub mod dispatcher;
pub mod shared;
