use vstd::prelude::*;

verus! {

/// The envelope of every reply: a message for the reader and, on success,
/// the payload.
#[derive(Debug, PartialEq, Eq)]
pub struct ApiResponse<T> {
    pub msg: Option<String>,
    pub data: Option<T>,
}

/// The body of a request that names a license.
#[derive(Debug, PartialEq, Eq)]
pub struct LicenseData {
    pub license: String,
}

/// The body of a request that names a license and a number of days.
#[derive(Debug, PartialEq, Eq)]
pub struct RenewData {
    pub license: String,
    pub days: i64,
}

} // verus!
