//! A checker of website availability.
//!
//! A run checks a list of URLs in one or more rounds. In each round a pool of
//! workers drains a queue of the URLs; each URL is attempted until it is
//! answered or its retries are used up; one collector receives the results,
//! keeps their statistics and writes them out.
//!
//! This library holds the rules of such a run as verified functions on plain
//! values: how the command line is read, how the targets are assembled, how a
//! response is judged, when an attempt is repeated, what the statistics are,
//! and what the table, the summary and the result file say. Sending requests,
//! threads, clocks and files are left to the program that uses it.

pub mod collector;
pub mod config;
pub mod display;
pub mod headers;
pub mod json;
pub mod json_decode;
pub mod number;
pub mod policy;
pub mod probe;
pub mod queue;
pub mod result;
pub mod retry;
pub mod round;
pub mod stats;
pub mod targets;
pub mod text;
