//! A verified userspace TCP endpoint core.
//!
//! The crate implements the per-connection TCP state machine and segment
//! processor of RFC 793: modular sequence-number arithmetic, segment
//! acceptability tests, state transitions, outbound segment assembly, and a
//! demultiplexer that maps connection identifiers to live connections.
//! Header encoding, decoding and checksums are delegated to the `etherparse`
//! crate behind a small set of trusted wrappers; all protocol logic is
//! verified.

pub mod seqnum;
pub mod wire;
pub mod tcp;
pub mod demux;
