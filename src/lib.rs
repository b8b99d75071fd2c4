//! Retrieval of numbered podcast episodes from several possible hosting
//! origins. Each episode number yields an ordered list of candidate locations,
//! one per naming rule; the candidates are tried in order until one succeeds or
//! all have failed, and the range of episodes is processed in groups no larger
//! than the configured concurrency width.
//!
//! The library decides; the caller fetches and writes files. `naming` renders
//! candidates and file names, `resolution` is the per-episode fallback loop as a
//! state machine, and `batch` plans the groups.
pub mod decimal;
pub mod naming;
pub mod resolution;
pub mod batch;
