//! Verified core of a command-line client that fetches "application" records
//! for a fixed academic term from an HTTP service.
//!
//! The crate holds everything the client decides or computes: validating the
//! bearer token read from disk, choosing the verbosity banner, planning the
//! HTTP requests (which URLs, which headers, how many requests), and
//! assembling the fetched bodies into output in the callers' original order.
//! The surrounding binary performs the argument parsing, file reading and
//! network traffic that these plans describe.

pub mod decimal;
pub mod errors;
pub mod request;
pub mod results;
pub mod token;
pub mod verbosity;
