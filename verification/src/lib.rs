//! Verified core of a batch image-compression tool.
//!
//! The library holds the logic that can be stated and proved over plain
//! values: human-readable size and ratio formatting, the two-call remote
//! compression protocol decisions, the typed error taxonomy, and the
//! bounded-concurrency scheduler bookkeeping.  The surrounding binary
//! performs the actual file and network I/O and feeds the results back
//! into these functions.

pub mod client;
pub mod errors;
pub mod report;
pub mod scheduler;
pub mod utils;

pub use report::failure_report_line;
pub use report::format_ratio;
pub use report::success_report_line;

pub use client::handle_fetch_response;
pub use client::handle_submit_response;
pub use client::TinyPng;
pub use errors::TinyPngError;
pub use scheduler::CompressionJob;
pub use scheduler::CompressionOutcome;
pub use scheduler::Scheduler;
pub use utils::format_size;
