use vstd::prelude::*;

verus! {

/// The kinds of failure that any component of the subsystem reports.
#[derive(Debug, Clone, Copy, PartialEq, Eq, Structural)]
pub enum ErrorKind {
    /// The durable store could not complete the operation; the caller may retry.
    StoreUnavailable,
    /// No valid privileged session backs the request.
    Unauthenticated,
    /// The domain is closed to new admissions.
    GateClosed,
    /// The participant has already been admitted.
    AlreadyAdmitted,
    /// The slot holds as many admissions as its capacity allows.
    CapacityExceeded,
    /// No slot carries the requested key.
    SlotNotFound,
    /// A winner was requested from an empty pool.
    EmptyPool,
}

/// The transport-level status that reports each kind of failure.
pub open spec fn status_of(e: ErrorKind) -> u16 {
    match e {
        ErrorKind::StoreUnavailable => 500,
        ErrorKind::Unauthenticated => 401,
        ErrorKind::GateClosed => 412,
        ErrorKind::AlreadyAdmitted => 409,
        ErrorKind::CapacityExceeded => 409,
        ErrorKind::SlotNotFound => 404,
        ErrorKind::EmptyPool => 404,
    }
}

impl ErrorKind {
    /// Only a store failure is transient; business rejections are definitive.
    pub fn is_retryable(&self) -> (r: bool)
        ensures
            r == (*self == ErrorKind::StoreUnavailable),
    {
        match self {
            ErrorKind::StoreUnavailable => true,
            _ => false,
        }
    }

    pub fn status_code(&self) -> (r: u16)
        ensures
            r == status_of(*self),
    {
        match self {
            ErrorKind::StoreUnavailable => 500,
            ErrorKind::Unauthenticated => unauthorized(),
            ErrorKind::GateClosed => 412,
            ErrorKind::AlreadyAdmitted => 409,
            ErrorKind::CapacityExceeded => 409,
            ErrorKind::SlotNotFound => 404,
            ErrorKind::EmptyPool => 404,
        }
    }
}

/// The status answered to a request that carries no valid privileged session.
pub fn unauthorized() -> (r: u16)
    ensures
        r == 401,
{
    401
}

} // verus!
