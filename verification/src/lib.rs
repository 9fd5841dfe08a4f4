//! The decisions of a checker that probes a list of codes against a web endpoint, one GET
//! request for each code.
//!
//! The library sends nothing and waits for nothing. It reads the list of codes from a text
//! (`codes`), plans the headers and timeouts of the client (`config`), says after each attempt
//! at a request whether to repeat it (`fetch`), leads a run through the list and sorts each
//! final status into one of three buckets (`driver`, `buckets`), and writes the buckets down
//! as a report (`report`). The caller sends the requests, sleeps, and reads and writes the
//! files.

pub mod buckets;
pub mod codes;
pub mod config;
pub mod driver;
pub mod fetch;
pub mod report;
pub mod text;
pub mod trusted;
