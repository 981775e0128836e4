//! Error kinds of the core, one variant per failure class.

use vstd::prelude::*;

verus! {

/// The error classes the core distinguishes.
///
/// - `Configuration`: an unsupported verb, conflicting body encodings, or an
///   unresolved variable placeholder (the payload names the offending item).
/// - `Serialization`: a persisted JSON blob (context, headers, conf) did not
///   have the expected flat string-to-string shape.
/// - `Transport`: the request never produced a response; the payload carries
///   the underlying cause as reported by the transport.
/// - `Application`: a response arrived with a status of 400 or above.
/// - `Storage`: a persistence read or write failed.
#[derive(Clone, PartialEq, Eq, Debug)]
pub enum CoreError {
    Configuration(String),
    Serialization(String),
    Transport(String),
    Application(u16),
    Storage(String),
}

} // verus!
