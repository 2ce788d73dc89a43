//! Hooks a runtime may provide to cap how much of its native currency an
//! account sends out.

use vstd::prelude::*;
use crate::pallet::Error;

verus! {

/// Tracks native-currency outflow per account.
pub trait NativeBarrier<AccountId, Balance> {
    fn update_native_barrier(account_id: &AccountId, amount: Balance);

    fn ensure_limit_not_exceeded(account_id: &AccountId, amount: Balance) -> Result<(), Error>;
}

/// Tells the native currency from the others.
pub trait NativeChecker<CurrencyId> {
    fn is_native(currency_id: &CurrencyId) -> bool;
}

} // verus!
