use vstd::prelude::*;

verus! {

/// Error codes shared by all the contracts, so that a client needs one table.
#[derive(Clone, Copy, Debug, PartialEq, Eq, Structural, PartialOrd, Ord, Hash)]
pub enum CarbonError {
    ProjectNotFound,
    ProjectNotVerified,
    ProjectSuspended,
    InsufficientCredits,
    AlreadyRetired,
    SerialNumberConflict,
    UnauthorizedVerifier,
    UnauthorizedOracle,
    InvalidVintageYear,
    ListingNotFound,
    PriceNotSet,
    MonitoringDataStale,
    ZeroAmountNotAllowed,
    ProjectAlreadyExists,
    InvalidSerialRange,
    NotOwner,
    AlreadyListed,
}

impl CarbonError {
    /// The numeric code of each error, as published to clients.
    pub open spec fn code_of(self) -> u32 {
        match self {
            CarbonError::ProjectNotFound => 1,
            CarbonError::ProjectNotVerified => 2,
            CarbonError::ProjectSuspended => 3,
            CarbonError::InsufficientCredits => 4,
            CarbonError::AlreadyRetired => 5,
            CarbonError::SerialNumberConflict => 6,
            CarbonError::UnauthorizedVerifier => 7,
            CarbonError::UnauthorizedOracle => 8,
            CarbonError::InvalidVintageYear => 9,
            CarbonError::ListingNotFound => 10,
            CarbonError::PriceNotSet => 11,
            CarbonError::MonitoringDataStale => 12,
            CarbonError::ZeroAmountNotAllowed => 13,
            CarbonError::ProjectAlreadyExists => 14,
            CarbonError::InvalidSerialRange => 15,
            CarbonError::NotOwner => 16,
            CarbonError::AlreadyListed => 17,
        }
    }

    pub fn code(&self) -> (c: u32)
        ensures
            c == self.code_of(),
    {
        match self {
            CarbonError::ProjectNotFound => 1,
            CarbonError::ProjectNotVerified => 2,
            CarbonError::ProjectSuspended => 3,
            CarbonError::InsufficientCredits => 4,
            CarbonError::AlreadyRetired => 5,
            CarbonError::SerialNumberConflict => 6,
            CarbonError::UnauthorizedVerifier => 7,
            CarbonError::UnauthorizedOracle => 8,
            CarbonError::InvalidVintageYear => 9,
            CarbonError::ListingNotFound => 10,
            CarbonError::PriceNotSet => 11,
            CarbonError::MonitoringDataStale => 12,
            CarbonError::ZeroAmountNotAllowed => 13,
            CarbonError::ProjectAlreadyExists => 14,
            CarbonError::InvalidSerialRange => 15,
            CarbonError::NotOwner => 16,
            CarbonError::AlreadyListed => 17,
        }
    }
}

/// Distinct errors have distinct codes, so a code identifies its error.
pub proof fn lemma_codes_distinct(a: CarbonError, b: CarbonError)
    ensures
        a.code_of() == b.code_of() <==> a == b,
{
}

} // verus!
