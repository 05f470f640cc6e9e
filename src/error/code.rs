use vstd::prelude::*;

verus! {

/// The request could not be decoded.
pub const BAD_REQUEST: u32 = 400;

/// No record has the requested identifier.
pub const NOT_FOUND: u32 = 404;

/// A reply could not be encoded.
pub const INTERNAL_SERVER_ERROR: u32 = 500;

} // verus!
