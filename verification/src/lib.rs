//! Bounded-concurrency enumeration engine: candidate generation, result
//! filtering, wildcard suppression, progress accounting and output framing.

pub mod args;
pub mod baseline;
pub mod bucket;
pub mod candidate;
pub mod counting;
pub mod dns;
pub mod error;
pub mod filter;
pub mod fuzz;
pub mod governor;
pub mod http;
pub mod list;
pub mod number;
pub mod outcome;
pub mod output;
pub mod plan;
pub mod progress;
pub mod record;
pub mod report;
pub mod run;
pub mod search;
pub mod text;
pub mod tftp;
pub mod token;
