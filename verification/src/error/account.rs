use vstd::prelude::*;

verus! {

/// Failures of balance arithmetic on a single account.
#[derive(Debug, PartialEq, Eq, Clone)]
pub enum AccountError {
    InsufficientBalance { required: u64, available: u64 },
    BalanceOverflow,
    CostOverflow,
}

} // verus!
