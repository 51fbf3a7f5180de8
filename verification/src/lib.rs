//! Checks whether the TLS certificate served by a host is valid, close to
//! expiry, or already expired, relative to a caller-chosen grace period.
//!
//! The crate holds the verified core of the checker: domain pre-flight
//! validation, extraction of a certificate's validity window, the grace
//! evaluator, the order-preserving batch join, and the textual and JSON
//! renderings of a check result. Network I/O (TCP, TLS) lives outside the
//! library; callers hand the library the outcome of each fetch as plain data.

pub mod check_result;
pub mod classify;
pub mod bindings;
pub mod decimal;
pub mod check_client;
pub mod json;
