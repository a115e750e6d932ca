//! Marshals the output of a packet-decoding engine into a fixed-capacity,
//! caller-owned result buffer, without ever writing past the buffer's
//! declared capacity, and models the halt-on-fault policy around it.

pub mod buffer;
pub mod engine;
pub mod marshal;
pub mod fault;
