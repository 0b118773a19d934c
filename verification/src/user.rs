//! The user identifier.

use vstd::prelude::*;

verus! {

/// A user's numeric id, unique in the users table.
#[derive(Debug, Clone, Copy, PartialEq, Eq, Structural)]
pub struct UserId(pub i32);

} // verus!
