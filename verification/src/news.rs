//! The active-news listing response.

use vstd::prelude::*;

use crate::result_json::HttpStatusCode;

verus! {

/// The texts of the currently active news entries.
#[derive(Debug, Clone)]
pub struct ActiveNewsResponse {
    pub news: Vec<String>,
}

/// How listing news fails: only by a storage failure.
#[derive(Debug, Clone)]
pub enum ActiveNewsError {
    DbError(String),
}

impl HttpStatusCode for ActiveNewsError {
    open spec fn spec_status_code(&self) -> u16 {
        500
    }

    fn status_code(&self) -> (c: u16)
        ensures
            c == self.spec_status_code(),
    {
        500
    }
}

} // verus!
