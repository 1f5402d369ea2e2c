//! Control and memory-access boundary of a cycle-stepped 65x64 virtual CPU.
//!
//! The [`bus`] module decodes masked 64-bit addresses over a RAM buffer and an
//! optional ROM overlay, at four access widths; [`memory`] is the capability
//! through which an engine reaches a bus or storage owned by the host, and
//! [`bytes`] the little-endian model of multi-byte values. The [`cpu`] module owns the
//! execution state (program counter, cycle count, halted flag) and drives an
//! injected instruction engine one instruction at a time.

pub mod bytes;
pub mod bus;
pub mod memory;
pub mod cpu;

