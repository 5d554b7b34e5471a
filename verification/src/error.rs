//! Error taxonomy of the session component: transport-level rejections,
//! authentication failures, and extraction failures on the scraped page.

use vstd::prelude::*;

verus! {

/// Why a scraped `id - date` text and its project fragments could not be
/// turned into an `Entry`.
#[derive(Clone, Copy, Debug, PartialEq, Eq, Structural)]
pub enum EntryParseError {
    /// The text holds no ` - ` separator between id and date.
    MissingSeparator,
    /// The date after the separator does not parse from the fixed textual
    /// format, or is no valid calendar date.
    InvalidDate,
    /// The project info held some other number of fragments than the two
    /// expected (customer, then project number).
    WrongProjectInfoCount { found: usize },
    /// The id is empty or holds a character that is not URL-safe.
    InvalidId,
}

/// A failure of one session operation. Every variant carries the context a
/// caller needs to act on it: the offending URL and status, the cookie
/// name, or the index of the malformed entry container.
#[derive(Clone, Debug, PartialEq)]
pub enum SessionError {
    /// The transport could not complete the request at all (connection or
    /// resolution failure): no HTTP status was received. Fatal, surfaced
    /// immediately, never retried.
    TransportFailed { url: String },
    /// A request came back with an HTTP status outside the 2xx range.
    RequestRejected { url: String, status: u16 },
    /// The login request was answered, possibly with a 2xx status, but the
    /// named session cookie was not set afterwards.
    MissingAuthCookie { name: String },
    /// A call that needs authentication was made while one of the session
    /// cookies is absent or expired: reported before any request is
    /// issued, instead of an obscure downstream extraction failure.
    Unauthenticated,
    /// An extraction path descriptor was not a valid selector.
    InvalidSelector,
    /// The entry container at `index` held no entry body element.
    MissingEntryBody { index: usize },
    /// The entry body at `index` held no `id - date` text element.
    MissingIdDate { index: usize },
    /// The entry body at `index` held no project info element.
    MissingProjectInfo { index: usize },
    /// The texts of the container at `index` failed to parse; the whole
    /// listing fails, never a partial one.
    EntryParse { index: usize, error: EntryParseError },
}

} // verus!
