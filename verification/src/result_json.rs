//! The uniform success/error envelope the HTTP boundary serializes: a
//! result whose error knows which HTTP status code it maps to.

use vstd::prelude::*;

verus! {

/// A response payload destined for the JSON envelope `{status, content}`.
#[derive(Debug)]
#[must_use]
pub struct ResultJson<T, E>(pub Result<T, E>);

impl<T, E> ResultJson<T, E> {
    /// Wraps a handler result for the envelope.
    pub fn new(r: Result<T, E>) -> (w: ResultJson<T, E>)
        ensures
            w.0 == r,
    {
        ResultJson(r)
    }
}

/// An error that maps to an HTTP status code. Success payloads always map
/// to 200; business errors map to the 400 class and storage failures to
/// the 500 class.
pub trait HttpStatusCode {
    /// The status code this value maps to.
    spec fn spec_status_code(&self) -> u16;

    /// Returns the status code this value maps to.
    fn status_code(&self) -> (c: u16)
        ensures
            c == self.spec_status_code(),
    ;
}

} // verus!
