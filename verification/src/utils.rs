//! Small input-validation helpers.

use vstd::prelude::*;
use crate::errors::PayError;

verus! {

/// Accepts a positive amount and rejects zero with `InvalidAmount`.
/// Amounts are unsigned, so no negative value can reach the engine.
pub fn validate_amount(amount: u64) -> (r: Result<u64, PayError>)
    ensures
        amount > 0 ==> r == Ok::<u64, PayError>(amount),
        amount == 0 ==> r == Err::<u64, PayError>(PayError::InvalidAmount),
{
    if amount == 0 {
        Err(PayError::InvalidAmount)
    } else {
        Ok(amount)
    }
}

} // verus!
