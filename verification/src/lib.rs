//! Core of a comparative compression benchmark: it turns a corpus of
//! byte-string samples into size statistics under several compression
//! strategies — per-sample, per accumulated block, and per-sample with a
//! trained dictionary — next to an uncompressed baseline.
//!
//! The compression codec itself (zstd) is an external capability reached
//! through a small set of trusted wrappers; everything around it — the
//! summaries, the block accumulation policy and the strategy loops — is
//! verified.

pub mod block;
pub mod codec;
pub mod runner;
pub mod summary;
