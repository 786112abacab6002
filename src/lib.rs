//! A ledger of shared-expense payments within trip groups, which lets each
//! member discharge an expense obligation at most once.
use vstd::prelude::*;

pub mod error;
pub mod types;
pub mod validate;
pub mod model;
pub mod ledger;
pub mod laws;

pub use error::ContractError;
pub use ledger::SettleXContract;
pub use types::{Address, DataKey, PaymentRecord};

verus! {

/// Host time units (ledgers) in a day.
pub const LEDGERS_PER_DAY: u32 = 17280;

/// A stored slot's retention is refreshed once it would run out within this
/// many ledgers, about thirty days.
pub const STORAGE_BUMP_THRESHOLD: u32 = LEDGERS_PER_DAY * 30;

/// The retention, in ledgers, that a refreshed slot is given: about a year.
pub const STORAGE_BUMP_AMOUNT: u32 = LEDGERS_PER_DAY * 365;

} // verus!
