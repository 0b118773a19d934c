//! User lookup request and response shapes.

use vstd::prelude::*;

use crate::result_json::HttpStatusCode;

verus! {

/// A request naming a user by username.
#[derive(Debug, Clone)]
pub struct UsernameRequest {
    pub username: String,
}

/// A user's profile and rendered balance.
#[derive(Debug, Clone)]
pub struct UserInfoResponse {
    pub username: String,
    pub first_name: String,
    pub last_name: String,
    pub email: String,
    pub balance: String,
}

/// How a user lookup fails: storage failure, or no user with that name.
#[derive(Debug, Clone)]
pub enum UserInfoError {
    DbError(String),
    InvalidUsername(String),
}

impl HttpStatusCode for UserInfoError {
    open spec fn spec_status_code(&self) -> u16 {
        match self {
            UserInfoError::DbError(_) => 500,
            UserInfoError::InvalidUsername(_) => 400,
        }
    }

    fn status_code(&self) -> (c: u16)
        ensures
            c == self.spec_status_code(),
    {
        match self {
            UserInfoError::DbError(_) => 500,
            UserInfoError::InvalidUsername(_) => 400,
        }
    }
}

} // verus!
