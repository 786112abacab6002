use vstd::prelude::*;

verus! {

/// The ways in which recording a payment can fail.
#[derive(Clone, Copy, Debug, PartialEq, Eq, Structural)]
pub enum ContractError {
    /// The amount was zero or negative.
    InvalidAmount,
    /// The member has already paid toward this expense.
    AlreadyPaid,
    /// The trip or expense identifier was empty.
    EmptyId,
}

impl ContractError {
    /// The numeric code under which the error is reported to callers.
    pub open spec fn spec_code(self) -> u32 {
        match self {
            ContractError::InvalidAmount => 1,
            ContractError::AlreadyPaid => 2,
            ContractError::EmptyId => 3,
        }
    }

    pub fn code(&self) -> (r: u32)
        ensures
            r == self.spec_code(),
    {
        match self {
            ContractError::InvalidAmount => 1,
            ContractError::AlreadyPaid => 2,
            ContractError::EmptyId => 3,
        }
    }
}

} // verus!
