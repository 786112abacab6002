use vstd::prelude::*;
use crate::error::ContractError;

verus! {

/// How a submission is answered, checks taken in order: the amount, the
/// identifiers, then whether the member has already paid.
pub open spec fn decide(
    trip: Seq<char>,
    expense: Seq<char>,
    amount: int,
    already_paid: bool,
) -> Result<(), ContractError> {
    if amount <= 0 {
        Err(ContractError::InvalidAmount)
    } else if trip.len() == 0 || expense.len() == 0 {
        Err(ContractError::EmptyId)
    } else if already_paid {
        Err(ContractError::AlreadyPaid)
    } else {
        Ok(())
    }
}

/// Fails with `InvalidAmount` exactly when `amount` is not positive.
pub fn validate_amount(amount: i128) -> (r: Result<(), ContractError>)
    ensures
        r == if amount <= 0 {
            Err::<(), ContractError>(ContractError::InvalidAmount)
        } else {
            Ok(())
        },
{
    if amount <= 0 {
        Err(ContractError::InvalidAmount)
    } else {
        Ok(())
    }
}

/// Fails with `EmptyId` exactly when either identifier is empty.
pub fn validate_ids(trip_id: &String, expense_id: &String) -> (r: Result<(), ContractError>)
    ensures
        r == if trip_id@.len() == 0 || expense_id@.len() == 0 {
            Err::<(), ContractError>(ContractError::EmptyId)
        } else {
            Ok(())
        },
{
    if trip_id.as_str().is_empty() || expense_id.as_str().is_empty() {
        Err(ContractError::EmptyId)
    } else {
        Ok(())
    }
}

/// Decides whether a payment may be recorded, given whether the member is
/// already marked as having paid toward the expense.
pub fn check_submission(
    trip_id: &String,
    expense_id: &String,
    amount: i128,
    already_paid: bool,
) -> (r: Result<(), ContractError>)
    ensures
        r == decide(trip_id@, expense_id@, amount as int, already_paid),
{
    validate_amount(amount)?;
    validate_ids(trip_id, expense_id)?;
    if already_paid {
        Err(ContractError::AlreadyPaid)
    } else {
        Ok(())
    }
}

} // verus!
