use vstd::prelude::*;

use crate::registry::RemoveError;
use crate::tool::Tool;

verus! {

/// Status of a successful listing or removal.
pub const STATUS_OK: u16 = 200;

/// Status of a successful creation.
pub const STATUS_CREATED: u16 = 201;

/// Status of a removal whose identifier is unknown.
pub const STATUS_NOT_FOUND: u16 = 404;

/// The HTTP status that answers a removal with outcome `r`.
pub fn removal_status(r: &Result<Tool, RemoveError>) -> (s: u16)
    ensures
        s == (if r.is_ok() {
            STATUS_OK
        } else {
            STATUS_NOT_FOUND
        }),
{
    match r {
        Ok(_) => STATUS_OK,
        Err(RemoveError::NotFound) => STATUS_NOT_FOUND,
    }
}

} // verus!
