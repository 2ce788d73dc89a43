//! The transfer interface other modules call, and per-account limits on
//! native-currency transfers.

use vstd::prelude::*;
use crate::asset::Asset;
use crate::location::Location;
use crate::pallet::{Dispatch, Error, Pallet};

verus! {

/// Abstraction over cross-chain token transfers.
pub trait XcmTransfer {
    /// Transfer a currency by its id.
    fn transfer(&self, who: &Location, currency_id: u32, amount: u128, dest: Location, dest_weight: u64) -> Result<
        Dispatch,
        Error,
    >;

    /// Transfer an asset.
    fn transfer_multi_asset(&self, who: &Location, asset: Asset, dest: Location, dest_weight: u64) -> Result<
        Dispatch,
        Error,
    >;

    /// Transfer an asset with a separate fee.
    fn transfer_multiasset_with_fee(
        &self,
        who: &Location,
        asset: Asset,
        fee: Asset,
        dest: Location,
        dest_weight: u64,
    ) -> Result<Dispatch, Error>;
}

impl XcmTransfer for Pallet {
    fn transfer(&self, who: &Location, currency_id: u32, amount: u128, dest: Location, dest_weight: u64) -> Result<
        Dispatch,
        Error,
    > {
        Pallet::transfer(self, who, currency_id, amount, dest, dest_weight)
    }

    fn transfer_multi_asset(&self, who: &Location, asset: Asset, dest: Location, dest_weight: u64) -> Result<
        Dispatch,
        Error,
    > {
        Pallet::transfer_multiasset(self, who, asset, dest, dest_weight)
    }

    fn transfer_multiasset_with_fee(
        &self,
        who: &Location,
        asset: Asset,
        fee: Asset,
        dest: Location,
        dest_weight: u64,
    ) -> Result<Dispatch, Error> {
        Pallet::transfer_multiasset_with_fee(self, who, asset, fee, dest, dest_weight)
    }
}

/// Tracks native-currency outflow through cross-chain transfers.
pub trait NativeBarrier<AccountId, Balance> {
    fn update_xcm_native_transfers(account_id: &AccountId, amount: Balance);

    fn ensure_xcm_transfer_limit_not_exceeded(account_id: &AccountId, amount: Balance) -> Result<(), Error>;
}

/// Tells the native currency from the others.
pub trait NativeChecker<CurrencyId> {
    fn is_native(currency_id: &CurrencyId) -> bool;
}

/// No limit at all.
impl NativeBarrier<(), ()> for () {
    fn update_xcm_native_transfers(_account_id: &(), _amount: ()) {
    }

    fn ensure_xcm_transfer_limit_not_exceeded(_account_id: &(), _amount: ()) -> Result<(), Error> {
        Ok(())
    }
}

/// The only currency is the native one.
impl NativeChecker<()> for () {
    fn is_native(_currency_id: &()) -> bool {
        true
    }
}

} // verus!
