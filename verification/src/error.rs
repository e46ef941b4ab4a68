//! Why an operation on a cipher failed.

use crate::json::Json;
use vstd::prelude::*;

verus! {

/// What an error carries besides its message.
#[derive(Debug)]
pub enum Detail {
    /// Nothing.
    Plain,
    /// The body of the answer to the client.
    Body(Json),
    /// What the store reported.
    Cause(String),
}

/// A failed operation.
#[derive(Debug)]
pub struct Error {
    pub message: String,
    pub detail: Detail,
}

} // verus!
