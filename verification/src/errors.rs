//! The kinds of failure that the protocol core can report.

use vstd::prelude::*;

verus! {

/// Classifies every failure the core can report.
///
/// Only `NotFound` (a by-key lookup on an absent key) and `Empty`
/// (`take_any` on an empty measurement set) are recoverable by normal
/// control flow; the other kinds terminate the affected link or session.
#[derive(Clone, Copy, Debug, PartialEq, Eq, Structural)]
pub enum ErrorKind {
    /// Malformed, duplicate or out-of-order sequence number, or a message
    /// received in the wrong session state. Fatal for the link.
    ProtocolViolation,
    /// A by-key operation addressed a key absent from the collection.
    NotFound,
    /// `take_any` found the collection empty; ends a draining iteration.
    Empty,
    /// The underlying link closed or became unreachable. Session-fatal.
    Transport,
    /// A value was rejected at construction, before transmission.
    Validation,
}

} // verus!
