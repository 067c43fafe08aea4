use vstd::prelude::*;

verus! {

/// Every way a lifecycle operation can fail. The set is closed: callers map
/// each kind to their own transport at the boundary.
#[derive(Debug, Clone, Copy, PartialEq, Eq, Structural)]
pub enum MyError {
    /// The store reported a fault of its own.
    DatabaseError,
    /// No record carries the requested key.
    LicenseNotFound,
    /// A removal found nothing to remove.
    LicenseDoesNotExist,
    /// A renewal was asked for a license that was never activated.
    LicenseNotActivated,
    /// A renewal was asked after the grace window had closed.
    LicenseExpired,
    /// An activation was asked for a license that is already active.
    LicenseAlreadyActive,
    /// A day count that is zero or negative.
    InvalidDuration,
}

} // verus!
