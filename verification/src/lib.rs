//! Channel-cell codec for the link protocol, version 4 framing.
//!
//! A channel cell is the framing unit of the wire protocol: a 32-bit
//! big-endian circuit id, an 8-bit command, and a payload.  Commands select
//! one of two framing disciplines: fixed-length cells carry exactly
//! `CELL_DATA_LEN` payload bytes on the wire (zero-padded, with trailing
//! zeros stripped on decode), while variable-length cells carry an explicit
//! 16-bit big-endian length prefix.  Encoding enforces the per-command
//! circuit-id presence policy and the payload length bounds.

pub mod cell;
pub mod codec;
pub mod decode;
pub mod encode;
pub mod roundtrip;
pub mod wire;
