//! The failures that the pipeline reports.

use vstd::prelude::*;

verus! {

/// Why a fetch task was abandoned.
#[derive(Clone, Copy, Debug, PartialEq, Eq, Structural)]
pub enum FetchError {
    /// The forum could not be reached, or sent no reply.
    Transport,
    /// The reply is not a JSON document.
    Syntax,
    /// The document lacks a field that the task needs, or holds it in
    /// another shape.
    Shape,
}

/// Why no access credential was obtained.
#[derive(Clone, Copy, Debug, PartialEq, Eq, Structural)]
pub enum AuthError {
    /// The auth provider could not be reached, or sent no reply.
    Transport,
    /// The auth provider answered with a status outside 200..=299.
    Status(u16),
    /// The reply is not a JSON object with a string `access_token`.
    Malformed,
}

} // verus!
