//! Decoder and replay engine for compact binary execution traces of a
//! module-based virtual machine: a tagged variable-length instruction
//! format, lazy forward-only decoding, call-stack reconstruction at any
//! budgeted point in the trace, and per-module metadata lookup.

pub mod instruction;
pub mod lemmas;
pub mod recording;
