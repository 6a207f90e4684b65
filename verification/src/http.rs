//! The plain data shapes the HTTP layer reads out of a request before
//! it reaches the library: query parameters, the referer header's
//! value, and a static file's path.

use vstd::prelude::*;

verus! {

/// The month a board view asks for, both parts optional (the current
/// month fills the gaps).
#[derive(Debug, PartialEq)]
pub struct DateRangeQuery {
    pub y: Option<i32>,
    pub m: Option<u32>,
}

/// The page a listing asks for.
#[derive(Debug, PartialEq)]
pub struct PageQuery {
    pub p: Option<usize>,
}

/// The referer header's value: where to send the client back to.
#[derive(Debug, PartialEq)]
pub struct Referer(pub String);

/// A static file requested by path.
#[derive(Debug, PartialEq)]
pub struct StaticFile<T>(pub T);

} // verus!
