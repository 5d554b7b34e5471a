//! Client-side core of a timesheet portal session: credential login over an
//! HTML form, extraction of pending entries from a rendered page, and a
//! multi-step submission workflow per entry, with per-entry outcome
//! aggregation for concurrent batches.
//!
//! The library holds the decision and data logic, all verified. The caller
//! owns the HTTP transport and its cookie jar: it issues the requests that
//! the planning functions here describe, and hands the responses (status
//! codes, page text, cookie presence) back to the outcome functions.

pub mod batch;
pub mod date;
pub mod entry;
pub mod error;
pub mod extract;
pub mod http;
pub mod listing;
pub mod session;
