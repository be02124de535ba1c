use vstd::prelude::*;

verus! {

/// Every way an operation of the contract can be refused.
///
/// The variants are declared in the order of their numeric codes, which
/// start at one; see [`Error::code`].
#[derive(Copy, Clone, Debug, Eq, PartialEq, PartialOrd, Ord)]
pub enum Error {
    InvalidInput,
    AlreadyExists,
    NotFound,
    UnsupportedToken,
    InsufficientPayment,
    NoUsagesRemaining,
    InvalidUsageCount,
    Unauthorized,
    InsufficientBalance,
    InvalidAmount,
    ContractPaused,
    AlreadyPaused,
    NotPaused,
    NotAuthorized,
    InvalidTotalPercentage,
    EmptyMembers,
    DuplicateMember,
    GroupInactive,
    GroupAlreadyActive,
    GroupAlreadyInactive,
    InsufficientContractBalance,
    MemberNotFound,
    GroupNotDeactivated,
}

impl Error {
    /// The numeric code under which the error is reported to callers.
    pub open spec fn spec_code(self) -> u32 {
        match self {
            Error::InvalidInput => 1,
            Error::AlreadyExists => 2,
            Error::NotFound => 3,
            Error::UnsupportedToken => 4,
            Error::InsufficientPayment => 5,
            Error::NoUsagesRemaining => 6,
            Error::InvalidUsageCount => 7,
            Error::Unauthorized => 8,
            Error::InsufficientBalance => 9,
            Error::InvalidAmount => 10,
            Error::ContractPaused => 11,
            Error::AlreadyPaused => 12,
            Error::NotPaused => 13,
            Error::NotAuthorized => 14,
            Error::InvalidTotalPercentage => 15,
            Error::EmptyMembers => 16,
            Error::DuplicateMember => 17,
            Error::GroupInactive => 18,
            Error::GroupAlreadyActive => 19,
            Error::GroupAlreadyInactive => 20,
            Error::InsufficientContractBalance => 21,
            Error::MemberNotFound => 22,
            Error::GroupNotDeactivated => 23,
        }
    }

    /// Returns the numeric code of the error.
    pub fn code(&self) -> (c: u32)
        ensures
            c == self.spec_code(),
            1 <= c <= 23,
    {
        match self {
            Error::InvalidInput => 1,
            Error::AlreadyExists => 2,
            Error::NotFound => 3,
            Error::UnsupportedToken => 4,
            Error::InsufficientPayment => 5,
            Error::NoUsagesRemaining => 6,
            Error::InvalidUsageCount => 7,
            Error::Unauthorized => 8,
            Error::InsufficientBalance => 9,
            Error::InvalidAmount => 10,
            Error::ContractPaused => 11,
            Error::AlreadyPaused => 12,
            Error::NotPaused => 13,
            Error::NotAuthorized => 14,
            Error::InvalidTotalPercentage => 15,
            Error::EmptyMembers => 16,
            Error::DuplicateMember => 17,
            Error::GroupInactive => 18,
            Error::GroupAlreadyActive => 19,
            Error::GroupAlreadyInactive => 20,
            Error::InsufficientContractBalance => 21,
            Error::MemberNotFound => 22,
            Error::GroupNotDeactivated => 23,
        }
    }
}

} // verus!
