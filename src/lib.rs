//! Keyword-tracked sentiment time series: validated configuration, the
//! per-keyword stream task state machine and the engine that supervises the
//! tasks of one run.
pub mod config;
pub mod stream;
pub mod server;
