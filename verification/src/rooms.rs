//! Room lookup request and response shapes.

use vstd::prelude::*;

use crate::result_json::HttpStatusCode;

verus! {

/// A request naming a room by id.
#[derive(Debug, Clone, Copy, PartialEq, Eq, Structural)]
pub struct RoomIdRequest {
    pub room_id: i32,
}

/// A room's id and display name.
#[derive(Debug, Clone)]
pub struct RoomInfoResponse {
    pub room_id: i32,
    pub name: String,
}

/// How a room lookup fails: storage failure, or no room with that id.
#[derive(Debug, Clone)]
pub enum RoomInfoError {
    DbError(String),
    InvalidRoom(i32),
}

impl HttpStatusCode for RoomInfoError {
    open spec fn spec_status_code(&self) -> u16 {
        match self {
            RoomInfoError::DbError(_) => 500,
            RoomInfoError::InvalidRoom(_) => 400,
        }
    }

    fn status_code(&self) -> (c: u16)
        ensures
            c == self.spec_status_code(),
    {
        match self {
            RoomInfoError::DbError(_) => 500,
            RoomInfoError::InvalidRoom(_) => 400,
        }
    }
}

} // verus!
