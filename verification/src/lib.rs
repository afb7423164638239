//! A verified core for a single-shot streaming downloader: unit formatters,
//! a sliding-window throughput sampler, a progress renderer, and the state
//! machine that drives a chunked read loop with retry-on-interrupt semantics.
pub mod http;
pub mod progress;
pub mod units;
