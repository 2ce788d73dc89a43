//! The transfer planner: validation, route classification, and the programs
//! that each entry point hands to the host to execute and send.

use vstd::prelude::*;
use crate::asset::{
    amount_of, fungible, fungibles_unique, is_positive_fungible, is_sorted, pushed, replaced, Asset, AssetBundle, AssetView, Fungibility,
};
use crate::location::{
    appended, chain_part_of, loc, non_chain_part_of, opt_view, reanchored_of, Junction, Location, LocationView,
};
use crate::program::{
    is_self_reserve_program, is_to_non_reserve_program, is_to_reserve_program, is_transact_program,
    Instruction, OriginKind,
};

verus! {

/// The largest call payload a transact may carry.
pub const TRANSACT_SIZE_CEILING: u32 = 256;

#[derive(Clone, Copy, Debug, PartialEq, Eq, Structural)]
pub enum Error {
    /// Asset has no reserve location.
    AssetHasNoReserve,
    /// Not cross-chain transfer.
    NotCrossChainTransfer,
    /// Invalid transfer destination.
    InvalidDest,
    /// Currency is not cross-chain transferable.
    NotCrossChainTransferableCurrency,
    /// The message's weight could not be determined.
    UnweighableMessage,
    /// XCM execution failed.
    XcmExecutionFailed,
    /// Could not re-anchor the assets to declare the fees for the
    /// destination chain.
    CannotReanchor,
    /// Could not get ancestry of asset reserve location.
    InvalidAncestry,
    /// The asset is invalid.
    InvalidAsset,
    /// The destination location provided cannot be inverted.
    DestinationNotInvertible,
    /// The version of a versioned value is not able to be interpreted.
    BadVersion,
    /// Distinct asset and fee were sent but they have different reserve
    /// chains.
    DistinctReserveForAssetAndFee,
    /// The fee is zero.
    ZeroFee,
    /// The transferring asset amount is zero.
    ZeroAmount,
    /// The number of assets to be sent is over the maximum.
    TooManyAssetsBeingSent,
    /// The specified index does not exist in a bundle.
    AssetIndexNonExistent,
    /// Fee is not enough.
    FeeNotEnough,
    /// Not supported location.
    NotSupportedMultiLocation,
    /// No minimum execution fee is registered for a reserve location.
    MinXcmFeeNotDefined,
    /// The message could not be sent.
    SendFailure,
    /// The call payload is over the size limit.
    TransactTooLarge,
}

#[derive(Clone, Copy, Debug, PartialEq, Eq, Structural)]
pub enum TransferKind {
    /// Transfer self reserve asset.
    SelfReserveAsset,
    /// To reserve location.
    ToReserve,
    /// To non-reserve location.
    ToNonReserve,
}

#[derive(Debug)]
pub enum Event {
    /// Transferred assets with fee.
    TransferredMultiAssets { sender: Location, assets: AssetBundle, fee: Asset, dest: Location },
}

/// The topology and limits a planner is built with.
#[derive(Debug)]
pub struct Config {
    /// This chain, as its siblings address it.
    pub self_location: Location,
    /// This chain's absolute address, used for reanchoring.
    pub ancestry: Location,
    /// The most distinct assets one transfer may send.
    pub max_assets_for_transfer: usize,
    /// The largest call payload a transact may carry.
    pub max_transact_size: u32,
    /// The location of each transferable currency.
    pub currencies: Vec<(u32, Location)>,
    /// The least execution fee on a chain that forwards fees.
    pub min_xcm_fees: Vec<(Location, u128)>,
    /// Locations no transfer may go to or under: a chain blocks every
    /// destination on it, an account only itself and what lies inside it.
    pub blocked_destinations: Vec<Location>,
    /// Whether an asset written relative to this chain, naming no chain,
    /// has this chain as its reserve; else such an asset has no reserve.
    pub relative_self_reserve: bool,
}

/// The planner.
#[derive(Debug)]
pub struct Pallet {
    pub config: Config,
}

/// What a successful dispatch asks of the host, in order: execute each
/// program locally as the sender, send each remote program to its chain,
/// and publish the events.
#[derive(Debug)]
pub struct Dispatch {
    pub executions: Vec<Vec<Instruction>>,
    pub sends: Vec<(Location, Vec<Instruction>)>,
    pub events: Vec<Event>,
}

/// One locally executed leg of a transfer.
pub struct Leg {
    pub assets: Seq<AssetView>,
    pub fee: AssetView,
    pub reserve: Option<LocationView>,
    pub recipient: Option<LocationView>,
}

impl Pallet {
    /// The reserve of an asset: this chain for an asset written relative to
    /// it, where the configuration says so; else the chain its id names.
    pub open spec fn reserve_of(&self, a: AssetView) -> Option<LocationView> {
        if self.config.relative_self_reserve && a.id.parents == 0 && !(a.id.interior.len() > 0
            && a.id.interior[0] is Parachain) {
            Some(self.self_location())
        } else {
            chain_part_of(a.id)
        }
    }

    /// The reserve of the assets other than the fee: every asset must be a
    /// positive fungible amount; all assets other than the fee must have
    /// the same reserve, where having none differs from having one; and
    /// that reserve must be present.
    pub open spec fn non_fee_reserve(&self, assets: Seq<AssetView>, fee: AssetView) -> Result<LocationView, Error> {
        let k = first_non_fee(assets, fee, 0);
        if exists|i: int| 0 <= i < assets.len() && !is_positive_fungible(#[trigger] assets[i]) {
            Err(Error::InvalidAsset)
        } else if exists|i: int, j: int|
            0 <= i < assets.len() && 0 <= j < assets.len() && is_non_fee(assets, fee, i) && is_non_fee(
                assets,
                fee,
                j,
            ) && self.reserve_of(#[trigger] assets[i]) != self.reserve_of(#[trigger] assets[j]) {
            Err(Error::DistinctReserveForAssetAndFee)
        } else if k >= assets.len() || self.reserve_of(assets[k]) is None {
            Err(Error::AssetHasNoReserve)
        } else {
            Ok(self.reserve_of(assets[k])->0)
        }
    }

    /// The asset whose reserve decides the route for weighing: the only one,
    /// else the second when the fee is the first, else the first.
    pub open spec fn weighing_reserve(&self, assets: Seq<AssetView>, fee_item: u32) -> Option<LocationView> {
        let i: int = if assets.len() == 1 {
            0
        } else if fee_item == 0 {
            1
        } else {
            0
        };
        if i < assets.len() {
            self.reserve_of(assets[i])
        } else {
            None
        }
    }

    /// The reserve of `a`.
    pub fn reserve(&self, a: &Asset) -> (r: Option<Location>)
        ensures
            opt_view(r) == self.reserve_of(a@),
    {
        let first_is_chain = a.id.interior.len() > 0 && matches!(a.id.interior[0], Junction::Parachain(_));
        if self.config.relative_self_reserve && a.id.parents == 0 && !first_is_chain {
            Some(self.config.self_location.duplicate())
        } else {
            a.id.chain_part()
        }
    }
}

pub open spec fn lookup_currency(s: Seq<(u32, Location)>, c: u32, i: int) -> Option<LocationView>
    decreases s.len() - i,
{
    if i < 0 || i >= s.len() {
        None
    } else if s[i].0 == c {
        Some(s[i].1@)
    } else {
        lookup_currency(s, c, i + 1)
    }
}

pub open spec fn lookup_min_fee(s: Seq<(Location, u128)>, l: LocationView, i: int) -> Option<u128>
    decreases s.len() - i,
{
    if i < 0 || i >= s.len() {
        None
    } else if s[i].0@ == l {
        Some(s[i].1)
    } else {
        lookup_min_fee(s, l, i + 1)
    }
}

/// `l` is `prefix` or lies inside it.
pub open spec fn is_under(prefix: LocationView, l: LocationView) -> bool {
    prefix.parents == l.parents && prefix.interior.len() <= l.interior.len() && l.interior.subrange(
        0,
        prefix.interior.len() as int,
    ) == prefix.interior
}

/// `a` with its id expressed relative to `target`.
pub open spec fn reanchored_asset(a: AssetView, target: LocationView, ancestry: LocationView) -> Option<AssetView> {
    match reanchored_of(a.id, target, ancestry) {
        Some(id) => Some(AssetView { id, fun: a.fun }),
        None => None,
    }
}

pub open spec fn reanchored_or_same(a: AssetView, target: LocationView, ancestry: LocationView) -> AssetView {
    match reanchored_asset(a, target, ancestry) {
        Some(r) => r,
        None => a,
    }
}

pub open spec fn half_of(a: AssetView) -> AssetView {
    fungible(a.id, (amount_of(a) / 2) as u128)
}

/// The destination as the reserve forwards to it: a sibling of ours is a
/// child of the parent.
pub open spec fn forwarded_dest(reserve: LocationView, dest: LocationView) -> LocationView {
    if reserve == loc(1, Seq::empty()) && dest.parents == 1
        && dest.interior.len() == 1 && dest.interior[0] is Parachain {
        LocationView { parents: 0, interior: dest.interior }
    } else {
        dest
    }
}

/// The route of a transfer of assets of `reserve` to `dest`: its kind, the
/// destination chain, the reserve, and the recipient inside the
/// destination chain.
pub open spec fn route_of(self_location: LocationView, reserve: Option<LocationView>, dest: LocationView) -> Result<
    (TransferKind, LocationView, LocationView, LocationView),
    Error,
> {
    match (chain_part_of(dest), non_chain_part_of(dest)) {
        (Some(d), Some(recipient)) => if d == self_location {
            Err(Error::NotCrossChainTransfer)
        } else {
            match reserve {
                None => Err(Error::AssetHasNoReserve),
                Some(r) => Ok(
                    (
                        if r == self_location {
                            TransferKind::SelfReserveAsset
                        } else if r == d {
                            TransferKind::ToReserve
                        } else {
                            TransferKind::ToNonReserve
                        },
                        d,
                        r,
                        recipient,
                    ),
                ),
            }
        },
        _ => Err(Error::InvalidDest),
    }
}

/// `base` with `suffix` appended, or `base` itself where that is too long.
pub open spec fn appended_or_same(base: LocationView, suffix: Seq<Junction>) -> LocationView {
    match appended(base, suffix) {
        Some(l) => l,
        None => base,
    }
}

pub open spec fn make_leg(
    assets: Seq<AssetView>,
    fee: AssetView,
    reserve: Option<LocationView>,
    recipient: Option<LocationView>,
) -> Leg {
    Leg { assets, fee, reserve, recipient }
}

/// Whether the asset at `i` counts as other than the fee: the only asset
/// of a bundle counts as both.
pub open spec fn is_non_fee(assets: Seq<AssetView>, fee: AssetView, i: int) -> bool {
    assets.len() == 1 || assets[i] != fee
}

/// The first position from `i` on of an asset other than the fee, or the
/// length when there is none.
pub open spec fn first_non_fee(assets: Seq<AssetView>, fee: AssetView, i: int) -> int
    decreases assets.len() - i,
{
    if i < 0 || i >= assets.len() {
        assets.len() as int
    } else if is_non_fee(assets, fee, i) {
        i
    } else {
        first_non_fee(assets, fee, i + 1)
    }
}

pub open spec fn is_transferred_event(
    e: Event,
    sender: LocationView,
    assets: Seq<AssetView>,
    fee: AssetView,
    dest: LocationView,
) -> bool {
    match e {
        Event::TransferredMultiAssets { sender: s, assets: a, fee: f, dest: d } => s@ == sender && a@
            == assets && f@ == fee && d@ == dest,
    }
}

impl Pallet {
    pub open spec fn self_location(&self) -> LocationView {
        self.config.self_location@
    }

    pub open spec fn ancestry(&self) -> LocationView {
        self.config.ancestry@
    }

    pub open spec fn currency_location(&self, c: u32) -> Option<LocationView> {
        lookup_currency(self.config.currencies@, c, 0)
    }

    pub open spec fn min_xcm_fee(&self, l: LocationView) -> Option<u128> {
        lookup_min_fee(self.config.min_xcm_fees@, l, 0)
    }

    /// The destination policy: refused where it is or lies under a blocked
    /// location.
    pub open spec fn allows(&self, dest: LocationView) -> bool {
        !exists|i: int|
            0 <= i < self.config.blocked_destinations@.len() && is_under(
                (#[trigger] self.config.blocked_destinations@[i])@,
                dest,
            )
    }

    /// The legs of a transfer of `assets` with `fee` from `origin` to
    /// `dest`, or why it is refused. Where the fee's reserve differs from
    /// the other assets', the destination must be their reserve: the fee
    /// less the least execution fee goes to the fee's reserve first, for
    /// the sender's sub-account of this chain, and the rest goes to the
    /// destination with the fee cut to that least fee.
    pub open spec fn planned_legs(
        &self,
        origin: LocationView,
        assets: Seq<AssetView>,
        fee: AssetView,
        dest: LocationView,
        recipient: Option<LocationView>,
    ) -> Result<Seq<Leg>, Error> {
        if assets.len() > self.config.max_assets_for_transfer {
            Err(Error::TooManyAssetsBeingSent)
        } else if !self.allows(dest) {
            Err(Error::NotSupportedMultiLocation)
        } else {
            match self.non_fee_reserve(assets, fee) {
                Err(e) => Err(e),
                Ok(asset_reserve) => {
                    let fee_reserve = self.reserve_of(fee);
                    if fee_reserve == Some(asset_reserve) {
                        Ok(seq![make_leg(assets, fee, Some(asset_reserve), recipient)])
                    } else if Some(asset_reserve) != chain_part_of(dest) {
                        Err(Error::InvalidAsset)
                    } else if fee_reserve is None {
                        Err(Error::AssetHasNoReserve)
                    } else {
                        match self.min_xcm_fee(fee_reserve->0) {
                            None => Err(Error::MinXcmFeeNotDefined),
                            Some(min_fee) => if min_fee >= amount_of(fee) {
                                Err(Error::FeeNotEnough)
                            } else {
                                let to_fee_reserve = fungible(fee.id, (amount_of(fee) - min_fee) as u128);
                                let to_dest = fungible(fee.id, min_fee);
                                Ok(
                                    seq![
                                        make_leg(
                                            seq![to_fee_reserve],
                                            to_fee_reserve,
                                            fee_reserve,
                                            Some(appended_or_same(self.self_location(), origin.interior)),
                                        ),
                                        make_leg(replaced(assets, fee, to_dest), to_dest, Some(asset_reserve), None),
                                    ],
                                )
                            },
                        }
                    }
                },
            }
        }
    }

    /// The legs of the transfer where every program can be built, else the
    /// first reason it cannot.
    pub open spec fn transfer_outcome(
        &self,
        origin: LocationView,
        assets: Seq<AssetView>,
        fee: AssetView,
        dest: LocationView,
        recipient: Option<LocationView>,
    ) -> Result<Seq<Leg>, Error> {
        match self.planned_legs(origin, assets, fee, dest, recipient) {
            Err(e) => Err(e),
            Ok(legs) => match self.leg_error(legs[0], dest) {
                Some(e) => Err(e),
                None => if legs.len() > 1 && self.leg_error(legs[1], dest) is Some {
                    Err(self.leg_error(legs[1], dest)->0)
                } else {
                    Ok(legs)
                },
            },
        }
    }

    /// `d` executes the program of each leg in turn, sends nothing, and
    /// publishes one transfer event.
    pub open spec fn is_transfer_dispatch(
        &self,
        d: Dispatch,
        legs: Seq<Leg>,
        sender: LocationView,
        assets: Seq<AssetView>,
        fee: AssetView,
        dest: LocationView,
        weight: u64,
    ) -> bool {
        &&& self.executes_legs(d, legs, sender, assets, fee, dest, weight)
        &&& d.sends@.len() == 0
    }

    /// `d` executes the program of each leg in turn and publishes one
    /// transfer event.
    pub open spec fn executes_legs(
        &self,
        d: Dispatch,
        legs: Seq<Leg>,
        sender: LocationView,
        assets: Seq<AssetView>,
        fee: AssetView,
        dest: LocationView,
        weight: u64,
    ) -> bool {
        &&& d.executions@.len() == legs.len()
        &&& forall|i: int| 0 <= i < legs.len() ==> self.is_leg_program(#[trigger] d.executions@[i]@, legs[i], dest, weight)
        &&& d.events@.len() == 1
        &&& is_transferred_event(d.events@[0], sender, assets, fee, dest)
    }

    /// `r` is what a transfer of `assets` with `fee` from `sender` to `dest`
    /// comes to: its dispatch where it succeeds, else its error.
    pub open spec fn is_transfer_result(
        &self,
        r: Result<Dispatch, Error>,
        sender: LocationView,
        assets: Seq<AssetView>,
        fee: AssetView,
        dest: LocationView,
        weight: u64,
        recipient: Option<LocationView>,
    ) -> bool {
        match self.transfer_outcome(sender, assets, fee, dest, recipient) {
            Ok(legs) => r matches Ok(d) && self.is_transfer_dispatch(d, legs, sender, assets, fee, dest, weight),
            Err(e) => r matches Err(x) && x == e,
        }
    }

    /// The bundle of the given currencies from position `i` on, added to
    /// `acc`, or the first currency that has no location or no amount.
    pub open spec fn collect_currencies(&self, cs: Seq<(u32, u128)>, i: int, acc: Seq<AssetView>) -> Result<
        Seq<AssetView>,
        Error,
    >
        decreases cs.len() - i,
    {
        if i < 0 || i >= cs.len() {
            Ok(acc)
        } else {
            match self.currency_location(cs[i].0) {
                None => Err(Error::NotCrossChainTransferableCurrency),
                Some(l) => if cs[i].1 == 0 {
                    Err(Error::ZeroAmount)
                } else {
                    self.collect_currencies(cs, i + 1, pushed(acc, fungible(l, cs[i].1)))
                },
            }
        }
    }

    /// The bundle of the given currencies from position `i` on, added to
    /// `acc`, as weighing sees it; none where a currency is unknown.
    pub open spec fn weighed_bundle(&self, cs: Seq<(u32, u128)>, i: int, acc: Seq<AssetView>) -> Option<
        Seq<AssetView>,
    >
        decreases cs.len() - i,
    {
        if i < 0 || i >= cs.len() {
            Some(acc)
        } else {
            match self.currency_location(cs[i].0) {
                None => None,
                Some(l) => self.weighed_bundle(cs, i + 1, pushed(acc, fungible(l, cs[i].1))),
            }
        }
    }

    /// The fee of a transact, as the chain `dest_chain` sees it.
    pub open spec fn transact_fee_at(&self, fee_location: LocationView, amount: u128, dest_chain: LocationView) -> Option<
        AssetView,
    > {
        reanchored_asset(fungible(fee_location, amount), dest_chain, self.ancestry())
    }

    /// Why the program of a leg to `dest` cannot be built, if it cannot.
    pub open spec fn leg_error(&self, leg: Leg, dest: LocationView) -> Option<Error> {
        match route_of(self.self_location(), leg.reserve, dest) {
            Err(e) => Some(e),
            Ok((kind, d, r, _)) => if kind == TransferKind::ToNonReserve {
                if reanchored_asset(half_of(leg.fee), r, self.ancestry()) is None || reanchored_asset(
                    half_of(leg.fee),
                    d,
                    self.ancestry(),
                ) is None {
                    Some(Error::CannotReanchor)
                } else {
                    None
                }
            } else if reanchored_asset(leg.fee, d, self.ancestry()) is None {
                Some(Error::CannotReanchor)
            } else {
                None
            },
        }
    }

    /// `p` is the program of a leg to `dest`.
    pub open spec fn is_leg_program(&self, p: Seq<Instruction>, leg: Leg, dest: LocationView, weight: u64) -> bool {
        match route_of(self.self_location(), leg.reserve, dest) {
            Err(_) => false,
            Ok((kind, d, r, default_recipient)) => {
                let recipient = match leg.recipient {
                    Some(o) => o,
                    None => default_recipient,
                };
                let anc = self.ancestry();
                match kind {
                    TransferKind::SelfReserveAsset => is_self_reserve_program(
                        p,
                        leg.assets,
                        reanchored_or_same(leg.fee, d, anc),
                        d,
                        recipient,
                        weight,
                    ),
                    TransferKind::ToReserve => is_to_reserve_program(
                        p,
                        leg.assets,
                        reanchored_or_same(leg.fee, d, anc),
                        d,
                        recipient,
                        weight,
                    ),
                    TransferKind::ToNonReserve => is_to_non_reserve_program(
                        p,
                        leg.assets,
                        reanchored_or_same(half_of(leg.fee), r, anc),
                        reanchored_or_same(half_of(leg.fee), d, anc),
                        r,
                        forwarded_dest(r, d),
                        recipient,
                        weight,
                    ),
                }
            },
        }
    }
}

fn reanchor_asset(a: &Asset, target: &Location, ancestry: &Location) -> (r: Result<Asset, Error>)
    ensures
        r matches Ok(x) ==> reanchored_asset(a@, target@, ancestry@) == Some(x@),
        r matches Err(e) ==> e == Error::CannotReanchor && reanchored_asset(a@, target@, ancestry@) is None,
{
    match a.id.reanchored(target, ancestry) {
        Some(id) => Ok(Asset { id, fun: a.fun }),
        None => Err(Error::CannotReanchor),
    }
}

impl Pallet {
    pub fn new(config: Config) -> (r: Pallet)
        ensures
            r.config == config,
    {
        Pallet { config }
    }

    /// Buy execution at `at` with `asset`, reanchored there.
    fn buy_execution(&self, asset: &Asset, at: &Location, weight: u64) -> (r: Result<Instruction, Error>)
        ensures
            r matches Ok(i) ==> reanchored_asset(asset@, at@, self.ancestry()) is Some
                && crate::program::is_buy_execution(i, reanchored_or_same(asset@, at@, self.ancestry()), weight),
            r matches Err(e) ==> e == Error::CannotReanchor && reanchored_asset(asset@, at@, self.ancestry()) is None,
    {
        let fees = reanchor_asset(asset, at, &self.config.ancestry)?;
        Ok(Instruction::BuyExecution { fees, weight_limit: weight })
    }

    fn deposit_asset(recipient: Location, max_assets: u32) -> (r: Instruction)
        ensures
            crate::program::is_deposit_asset(r, max_assets, recipient@),
    {
        Instruction::DepositAsset { max_assets, beneficiary: recipient }
    }

    fn transfer_self_reserve_asset(
        &self,
        assets: AssetBundle,
        fee: &Asset,
        dest: Location,
        recipient: Location,
        dest_weight: u64,
    ) -> (r: Result<Vec<Instruction>, Error>)
        ensures
            r is Ok <==> reanchored_asset(fee@, dest@, self.ancestry()) is Some,
            r matches Err(e) ==> e == Error::CannotReanchor,
            r matches Ok(p) ==> is_self_reserve_program(
                p@,
                assets@,
                reanchored_or_same(fee@, dest@, self.ancestry()),
                dest@,
                recipient@,
                dest_weight,
            ),
    {
        let buy = self.buy_execution(fee, &dest, dest_weight)?;
        let n = assets.len() as u32;
        let xcm = vec![buy, Pallet::deposit_asset(recipient, n)];
        Ok(vec![Instruction::TransferReserveAsset { assets, dest, xcm }])
    }

    fn transfer_to_reserve(
        &self,
        assets: AssetBundle,
        fee: &Asset,
        reserve: Location,
        recipient: Location,
        dest_weight: u64,
    ) -> (r: Result<Vec<Instruction>, Error>)
        ensures
            r is Ok <==> reanchored_asset(fee@, reserve@, self.ancestry()) is Some,
            r matches Err(e) ==> e == Error::CannotReanchor,
            r matches Ok(p) ==> is_to_reserve_program(
                p@,
                assets@,
                reanchored_or_same(fee@, reserve@, self.ancestry()),
                reserve@,
                recipient@,
                dest_weight,
            ),
    {
        let buy = self.buy_execution(fee, &reserve, dest_weight)?;
        let n = assets.len() as u32;
        let xcm = vec![buy, Pallet::deposit_asset(recipient, n)];
        Ok(vec![Instruction::WithdrawAsset(assets), Instruction::InitiateReserveWithdraw { reserve, xcm }])
    }

    fn transfer_to_non_reserve(
        &self,
        assets: AssetBundle,
        fee: &Asset,
        reserve: Location,
        dest: Location,
        recipient: Location,
        dest_weight: u64,
    ) -> (r: Result<Vec<Instruction>, Error>)
        ensures
            r is Ok <==> reanchored_asset(half_of(fee@), reserve@, self.ancestry()) is Some
                && reanchored_asset(half_of(fee@), dest@, self.ancestry()) is Some,
            r matches Err(e) ==> e == Error::CannotReanchor,
            r matches Ok(p) ==> is_to_non_reserve_program(
                p@,
                assets@,
                reanchored_or_same(half_of(fee@), reserve@, self.ancestry()),
                reanchored_or_same(half_of(fee@), dest@, self.ancestry()),
                reserve@,
                forwarded_dest(reserve@, dest@),
                recipient@,
                dest_weight,
            ),
    {
        let mut reanchored_dest = dest.duplicate();
        if reserve == Location::parent() && dest.parents == 1 && dest.interior.len() == 1 {
            if let Junction::Parachain(id) = dest.interior[0] {
                let mut interior = Vec::new();
                interior.push(Junction::Parachain(id));
                assert(interior@ =~= dest.interior@);
                reanchored_dest = Location::new(0, interior);
            }
        }
        let half = fee.half();
        let buy_at_reserve = self.buy_execution(&half, &reserve, dest_weight)?;
        let buy_at_dest = self.buy_execution(&half, &dest, dest_weight)?;
        let n = assets.len() as u32;
        let inner = vec![buy_at_dest, Pallet::deposit_asset(recipient, n)];
        let xcm = vec![
            buy_at_reserve,
            Instruction::DepositReserveAsset { max_assets: n, dest: reanchored_dest, xcm: inner },
        ];
        Ok(vec![Instruction::WithdrawAsset(assets), Instruction::InitiateReserveWithdraw { reserve, xcm }])
    }

    /// The destination chain and the recipient inside it.
    fn ensure_valid_dest(dest: &Location) -> (r: Result<(Location, Location), Error>)
        ensures
            r matches Ok((d, recipient)) ==> chain_part_of(dest@) == Some(d@) && non_chain_part_of(dest@)
                == Some(recipient@),
            r matches Err(e) ==> e == Error::InvalidDest && (chain_part_of(dest@) is None
                || non_chain_part_of(dest@) is None),
    {
        match (dest.chain_part(), dest.non_chain_part()) {
            (Some(d), Some(recipient)) => Ok((d, recipient)),
            _ => Err(Error::InvalidDest),
        }
    }

    /// The kind of a transfer of assets of `reserve` to `dest`, the
    /// destination chain, the reserve, and the recipient.
    pub fn transfer_kind(&self, reserve: Option<Location>, dest: &Location) -> (r: Result<
        (TransferKind, Location, Location, Location),
        Error,
    >)
        ensures
            r matches Ok((k, d, res, recipient)) ==> route_of(
                self.self_location(),
                opt_view(reserve),
                dest@,
            ) == Ok::<_, Error>((k, d@, res@, recipient@)),
            r matches Err(e) ==> route_of(self.self_location(), opt_view(reserve), dest@) == Err::<
                (TransferKind, LocationView, LocationView, LocationView),
                Error,
            >(e),
    {
        let (d, recipient) = Pallet::ensure_valid_dest(dest)?;
        if d == self.config.self_location {
            return Err(Error::NotCrossChainTransfer);
        }
        let reserve = match reserve {
            Some(r) => r,
            None => {
                return Err(Error::AssetHasNoReserve);
            },
        };
        let kind = if reserve == self.config.self_location {
            TransferKind::SelfReserveAsset
        } else if reserve == d {
            TransferKind::ToReserve
        } else {
            TransferKind::ToNonReserve
        };
        Ok((kind, d, reserve, recipient))
    }
}

impl Pallet {
    /// The location of currency `c`.
    pub fn convert_currency(&self, c: u32) -> (r: Option<Location>)
        ensures
            opt_view(r) == self.currency_location(c),
    {
        let n = self.config.currencies.len();
        let mut i: usize = 0;
        while i < n
            invariant
                n == self.config.currencies@.len(),
                i <= n,
                self.currency_location(c) == lookup_currency(self.config.currencies@, c, i as int),
            decreases n - i,
        {
            if self.config.currencies[i].0 == c {
                return Some(self.config.currencies[i].1.duplicate());
            }
            i = i + 1;
        }
        None
    }

    /// The least execution fee registered for chain `l`.
    pub fn get_min_xcm_fee(&self, l: &Location) -> (r: Option<u128>)
        ensures
            r == self.min_xcm_fee(l@),
    {
        let n = self.config.min_xcm_fees.len();
        let mut i: usize = 0;
        while i < n
            invariant
                n == self.config.min_xcm_fees@.len(),
                i <= n,
                self.min_xcm_fee(l@) == lookup_min_fee(self.config.min_xcm_fees@, l@, i as int),
            decreases n - i,
        {
            if self.config.min_xcm_fees[i].0 == *l {
                return Some(self.config.min_xcm_fees[i].1);
            }
            i = i + 1;
        }
        None
    }

    /// Whether the destination policy lets a transfer go to `dest`.
    pub fn locations_allowed(&self, dest: &Location) -> (r: bool)
        ensures
            r == self.allows(dest@),
    {
        let n = self.config.blocked_destinations.len();
        let mut i: usize = 0;
        while i < n
            invariant
                n == self.config.blocked_destinations@.len(),
                i <= n,
                forall|j: int| 0 <= j < i ==> !is_under((#[trigger] self.config.blocked_destinations@[j])@, dest@),
            decreases n - i,
        {
            if location_under(&self.config.blocked_destinations[i], dest) {
                return false;
            }
            i = i + 1;
        }
        true
    }

    /// The program of one leg: `assets` with `fee` towards `dest`, through
    /// `reserve`, to the recipient that `dest` names or to
    /// `recipient_override`.
    fn reserve_kind_program(
        &self,
        assets: AssetBundle,
        fee: &Asset,
        reserve: Option<Location>,
        dest: &Location,
        recipient_override: Option<Location>,
        dest_weight: u64,
    ) -> (r: Result<Vec<Instruction>, Error>)
        ensures
            r matches Ok(p) ==> self.leg_error(make_leg(assets@, fee@, opt_view(reserve), opt_view(recipient_override)), dest@) is None
                && self.is_leg_program(p@, make_leg(assets@, fee@, opt_view(reserve), opt_view(recipient_override)), dest@, dest_weight),
            r matches Err(e) ==> self.leg_error(make_leg(assets@, fee@, opt_view(reserve), opt_view(recipient_override)), dest@) == Some(e),
    {
        let (kind, d, res, default_recipient) = self.transfer_kind(reserve, dest)?;
        let recipient = match recipient_override {
            Some(o) => o,
            None => default_recipient,
        };
        match kind {
            TransferKind::SelfReserveAsset => self.transfer_self_reserve_asset(assets, fee, d, recipient, dest_weight),
            TransferKind::ToReserve => self.transfer_to_reserve(assets, fee, d, recipient, dest_weight),
            TransferKind::ToNonReserve => self.transfer_to_non_reserve(assets, fee, res, d, recipient, dest_weight),
        }
    }
}

proof fn lemma_no_non_fee(assets: Seq<AssetView>, fee: AssetView, i: int)
    requires
        0 <= i,
        first_non_fee(assets, fee, i) >= assets.len(),
    ensures
        forall|j: int| i <= j < assets.len() ==> !is_non_fee(assets, fee, j),
    decreases assets.len() - i,
{
    if i < assets.len() {
        lemma_no_non_fee(assets, fee, i + 1);
    }
}

proof fn lemma_first_non_fee_is_non_fee(assets: Seq<AssetView>, fee: AssetView, i: int)
    requires
        0 <= i,
        first_non_fee(assets, fee, i) < assets.len(),
    ensures
        is_non_fee(assets, fee, first_non_fee(assets, fee, i)),
    decreases assets.len() - i,
{
    if i < assets.len() && !is_non_fee(assets, fee, i) {
        lemma_first_non_fee_is_non_fee(assets, fee, i + 1);
    }
}

/// Whether `l` is `prefix` or lies inside it.
pub fn location_under(prefix: &Location, l: &Location) -> (r: bool)
    ensures
        r == is_under(prefix@, l@),
{
    if prefix.parents != l.parents || prefix.interior.len() > l.interior.len() {
        return false;
    }
    let n = prefix.interior.len();
    let mut i: usize = 0;
    while i < n
        invariant
            n == prefix.interior@.len(),
            n <= l.interior@.len(),
            i <= n,
            forall|j: int| 0 <= j < i ==> l.interior@[j] == prefix.interior@[j],
        decreases n - i,
    {
        if l.interior[i] != prefix.interior[i] {
            assert(l.interior@.subrange(0, n as int)[i as int] != prefix.interior@[i as int]);
            return false;
        }
        i = i + 1;
    }
    assert(l.interior@.subrange(0, n as int) =~= prefix.interior@);
    true
}

fn same_location(a: &Option<Location>, b: &Option<Location>) -> (r: bool)
    ensures
        r == (opt_view(*a) == opt_view(*b)),
{
    match (a, b) {
        (Some(x), Some(y)) => *x == *y,
        (None, None) => true,
        _ => false,
    }
}

impl Pallet {
    /// The reserve of the assets other than the fee, or why there is none
    /// to route by.
    pub fn find_non_fee_reserve(&self, assets: &AssetBundle, fee: &Asset) -> (r: Result<Location, Error>)
        ensures
            r matches Ok(l) ==> self.non_fee_reserve(assets@, fee@) == Ok::<LocationView, Error>(l@),
            r matches Err(e) ==> self.non_fee_reserve(assets@, fee@) == Err::<LocationView, Error>(e),
    {
        let n = assets.len();
        let mut i: usize = 0;
        while i < n
            invariant
                n == assets@.len(),
                i <= n,
                forall|j: int| 0 <= j < i ==> is_positive_fungible(#[trigger] assets@[j]),
            decreases n - i,
        {
            let asset = match assets.get(i) {
                Some(a) => a,
                None => {
                    return Err(Error::InvalidAsset);
                },
            };
            let positive = match asset.fun {
                Fungibility::Fungible(x) => x > 0,
                Fungibility::NonFungible(_) => false,
            };
            if !positive {
                assert(!is_positive_fungible(assets@[i as int]));
                return Err(Error::InvalidAsset);
            }
            i = i + 1;
        }
        let mut k: usize = 0;
        if n != 1 {
            while k < n && assets.get(k).unwrap().same_as(fee)
                invariant
                    n == assets@.len(),
                    n != 1,
                    k <= n,
                    first_non_fee(assets@, fee@, 0) == first_non_fee(assets@, fee@, k as int),
                decreases n - k,
            {
                k = k + 1;
            }
        }
        assert(first_non_fee(assets@, fee@, 0) == k);
        if k >= n {
            proof {
                lemma_no_non_fee(assets@, fee@, 0);
            }
            return Err(Error::AssetHasNoReserve);
        }
        proof {
            lemma_first_non_fee_is_non_fee(assets@, fee@, 0);
        }
        let first_reserve = self.reserve(assets.get(k).unwrap());
        let mut j: usize = 0;
        while j < n
            invariant
                n == assets@.len(),
                k < n,
                j <= n,
                first_non_fee(assets@, fee@, 0) == k,
                is_non_fee(assets@, fee@, k as int),
                forall|m: int| 0 <= m < n ==> is_positive_fungible(#[trigger] assets@[m]),
                opt_view(first_reserve) == self.reserve_of(assets@[k as int]),
                forall|m: int|
                    0 <= m < j ==> !(is_non_fee(assets@, fee@, m) && self.reserve_of(#[trigger] assets@[m])
                        != self.reserve_of(assets@[k as int])),
            decreases n - j,
        {
            let asset = assets.get(j).unwrap();
            if (n == 1 || !asset.same_as(fee)) && !same_location(&self.reserve(asset), &first_reserve) {
                assert(is_non_fee(assets@, fee@, j as int));
                assert(self.reserve_of(assets@[j as int]) != self.reserve_of(assets@[k as int]));
                return Err(Error::DistinctReserveForAssetAndFee);
            }
            j = j + 1;
        }
        assert forall|i: int, m: int|
            0 <= i < n && 0 <= m < n && is_non_fee(assets@, fee@, i) && is_non_fee(assets@, fee@, m) implies
            self.reserve_of(#[trigger] assets@[i]) == self.reserve_of(#[trigger] assets@[m]) by {
            assert(self.reserve_of(assets@[i]) == self.reserve_of(assets@[k as int]));
            assert(self.reserve_of(assets@[m]) == self.reserve_of(assets@[k as int]));
        }
        match first_reserve {
            Some(r) => Ok(r),
            None => Err(Error::AssetHasNoReserve),
        }
    }

    /// Transfers `assets` from `who`, paying with `fee`, to `dest`: one
    /// program when the fee shares the reserve of the other assets, else
    /// two, the fee's part to its reserve first.
    pub fn do_transfer_multiassets(
        &self,
        who: &Location,
        assets: AssetBundle,
        fee: Asset,
        dest: Location,
        dest_weight: u64,
        override_recipient: Option<Location>,
    ) -> (r: Result<Dispatch, Error>)
        requires
            assets.wf(),
        ensures
            r is Ok <==> self.transfer_outcome(who@, assets@, fee@, dest@, opt_view(override_recipient)) is Ok,
            r matches Err(e) ==> self.transfer_outcome(who@, assets@, fee@, dest@, opt_view(override_recipient))
                == Err::<Seq<Leg>, Error>(e),
            r matches Ok(d) ==> self.is_transfer_dispatch(
                d,
                self.transfer_outcome(who@, assets@, fee@, dest@, opt_view(override_recipient))->Ok_0,
                who@,
                assets@,
                fee@,
                dest@,
                dest_weight,
            ),
            self.is_transfer_result(r, who@, assets@, fee@, dest@, dest_weight, opt_view(override_recipient)),
    {
        if assets.len() > self.config.max_assets_for_transfer {
            return Err(Error::TooManyAssetsBeingSent);
        }
        if !self.locations_allowed(&dest) {
            return Err(Error::NotSupportedMultiLocation);
        }
        let asset_reserve = self.find_non_fee_reserve(&assets, &fee)?;
        let fee_reserve = self.reserve(&fee);
        let mut executions: Vec<Vec<Instruction>> = Vec::new();
        if same_location(&fee_reserve, &Some(asset_reserve.duplicate())) {
            let program = self.reserve_kind_program(
                assets.duplicate(),
                &fee,
                Some(asset_reserve),
                &dest,
                override_recipient,
                dest_weight,
            )?;
            executions.push(program);
        } else {
            if !same_location(&Some(asset_reserve.duplicate()), &dest.chain_part()) {
                return Err(Error::InvalidAsset);
            }
            let fee_reserve = match fee_reserve {
                Some(x) => x,
                None => {
                    return Err(Error::AssetHasNoReserve);
                },
            };
            let min_fee = match self.get_min_xcm_fee(&fee_reserve) {
                Some(m) => m,
                None => {
                    return Err(Error::MinXcmFeeNotDefined);
                },
            };
            if min_fee >= fee.amount() {
                return Err(Error::FeeNotEnough);
            }
            let fee_to_dest = Asset::new_fungible(fee.id.duplicate(), min_fee);
            let assets_to_dest = assets.with_replaced(&fee, min_fee);
            let fee_to_fee_reserve = fee.subtract_fee(min_fee);
            let assets_to_fee_reserve = AssetBundle::single(fee_to_fee_reserve.duplicate());
            let mut sub_account = self.config.self_location.duplicate();
            let _ = sub_account.append_with(&who.interior);
            let first = self.reserve_kind_program(
                assets_to_fee_reserve,
                &fee_to_fee_reserve,
                Some(fee_reserve),
                &dest,
                Some(sub_account),
                dest_weight,
            )?;
            let second = self.reserve_kind_program(
                assets_to_dest,
                &fee_to_dest,
                Some(asset_reserve),
                &dest,
                None,
                dest_weight,
            )?;
            executions.push(first);
            executions.push(second);
        }
        let ghost legs = self.transfer_outcome(who@, assets@, fee@, dest@, opt_view(override_recipient))->Ok_0;
        let mut events: Vec<Event> = Vec::new();
        events.push(Event::TransferredMultiAssets { sender: who.duplicate(), assets, fee, dest });
        let d = Dispatch { executions, sends: Vec::new(), events };
        assert(d.executions@.len() == legs.len());
        assert(self.is_transfer_result(Ok(d), who@, assets@, fee@, dest@, dest_weight, opt_view(override_recipient)));
        Ok(d)
    }
}

pub open spec fn is_error(r: Result<Dispatch, Error>, e: Error) -> bool {
    r matches Err(x) && x == e
}

/// `s` sends to `dest_chain` the transact program of the given parts.
pub open spec fn is_transact_send(
    s: (Location, Vec<Instruction>),
    dest_chain: LocationView,
    origin_interior: Seq<Junction>,
    fees: AssetView,
    weight: u64,
    call: Seq<u8>,
    refund_to: LocationView,
) -> bool {
    s.0@ == dest_chain && is_transact_program(s.1@, origin_interior, fees, weight, call, refund_to)
}

impl Pallet {
    /// Transfers `amount` of currency `currency_id` from `who` to `dest`,
    /// paying the fee out of the amount.
    pub fn transfer(&self, who: &Location, currency_id: u32, amount: u128, dest: Location, dest_weight: u64) -> (r:
        Result<Dispatch, Error>)
        ensures
            match self.currency_location(currency_id) {
                None => is_error(r, Error::NotCrossChainTransferableCurrency),
                Some(l) => if amount == 0 {
                    is_error(r, Error::ZeroAmount)
                } else if !self.allows(dest@) {
                    is_error(r, Error::NotSupportedMultiLocation)
                } else {
                    self.is_transfer_result(r, who@, seq![fungible(l, amount)], fungible(l, amount), dest@, dest_weight, None)
                },
            },
    {
        let location = match self.convert_currency(currency_id) {
            Some(l) => l,
            None => {
                return Err(Error::NotCrossChainTransferableCurrency);
            },
        };
        if amount == 0 {
            return Err(Error::ZeroAmount);
        }
        if !self.locations_allowed(&dest) {
            return Err(Error::NotSupportedMultiLocation);
        }
        let asset = Asset::new_fungible(location, amount);
        self.do_transfer_multiassets(who, AssetBundle::single(asset.duplicate()), asset, dest, dest_weight, None)
    }

    /// Transfers `asset` from `who` to `dest`, paying the fee out of it.
    pub fn transfer_multiasset(&self, who: &Location, asset: Asset, dest: Location, dest_weight: u64) -> (r: Result<
        Dispatch,
        Error,
    >)
        ensures
            self.is_transfer_result(r, who@, seq![asset@], asset@, dest@, dest_weight, None),
    {
        self.do_transfer_multiassets(who, AssetBundle::single(asset.duplicate()), asset, dest, dest_weight, None)
    }

    /// Transfers `amount` of currency `currency_id` from `who` to `dest`, with
    /// `fee` more of it to pay for execution.
    pub fn transfer_with_fee(
        &self,
        who: &Location,
        currency_id: u32,
        amount: u128,
        fee: u128,
        dest: Location,
        dest_weight: u64,
    ) -> (r: Result<Dispatch, Error>)
        ensures
            match self.currency_location(currency_id) {
                None => is_error(r, Error::NotCrossChainTransferableCurrency),
                Some(l) => if amount == 0 {
                    is_error(r, Error::ZeroAmount)
                } else if fee == 0 {
                    is_error(r, Error::ZeroFee)
                } else if !self.allows(dest@) {
                    is_error(r, Error::NotSupportedMultiLocation)
                } else {
                    self.is_transfer_result(
                        r,
                        who@,
                        pushed(seq![fungible(l, amount)], fungible(l, fee)),
                        fungible(l, fee),
                        dest@,
                        dest_weight,
                        None,
                    )
                },
            },
    {
        let location = match self.convert_currency(currency_id) {
            Some(l) => l,
            None => {
                return Err(Error::NotCrossChainTransferableCurrency);
            },
        };
        if amount == 0 {
            return Err(Error::ZeroAmount);
        }
        if fee == 0 {
            return Err(Error::ZeroFee);
        }
        if !self.locations_allowed(&dest) {
            return Err(Error::NotSupportedMultiLocation);
        }
        let fee_asset = Asset::new_fungible(location.duplicate(), fee);
        let mut assets = AssetBundle::single(Asset::new_fungible(location, amount));
        assets.push(fee_asset.duplicate());
        self.do_transfer_multiassets(who, assets, fee_asset, dest, dest_weight, None)
    }

    /// Transfers `asset` from `who` to `dest`, with `fee` to pay for
    /// execution.
    pub fn transfer_multiasset_with_fee(
        &self,
        who: &Location,
        asset: Asset,
        fee: Asset,
        dest: Location,
        dest_weight: u64,
    ) -> (r: Result<Dispatch, Error>)
        ensures
            self.is_transfer_result(r, who@, pushed(seq![asset@], fee@), fee@, dest@, dest_weight, None),
    {
        let mut assets = AssetBundle::single(asset);
        assets.push(fee.duplicate());
        self.do_transfer_multiassets(who, assets, fee, dest, dest_weight, None)
    }

    /// Transfers several currencies from `who` to `dest`, the one at
    /// `fee_item` paying for execution.
    pub fn transfer_multicurrencies(
        &self,
        who: &Location,
        currencies: Vec<(u32, u128)>,
        fee_item: u32,
        dest: Location,
        dest_weight: u64,
    ) -> (r: Result<Dispatch, Error>)
        ensures
            if currencies@.len() > self.config.max_assets_for_transfer {
                is_error(r, Error::TooManyAssetsBeingSent)
            } else if !self.allows(dest@) {
                is_error(r, Error::NotSupportedMultiLocation)
            } else if fee_item >= currencies@.len() {
                is_error(r, Error::AssetIndexNonExistent)
            } else {
                match self.collect_currencies(currencies@, 0, Seq::empty()) {
                    Err(e) => is_error(r, e),
                    Ok(assets) => match self.currency_location(currencies@[fee_item as int].0) {
                        None => is_error(r, Error::NotCrossChainTransferableCurrency),
                        Some(l) => self.is_transfer_result(
                            r,
                            who@,
                            assets,
                            fungible(l, currencies@[fee_item as int].1),
                            dest@,
                            dest_weight,
                            None,
                        ),
                    },
                }
            },
    {
        if currencies.len() > self.config.max_assets_for_transfer {
            return Err(Error::TooManyAssetsBeingSent);
        }
        if !self.locations_allowed(&dest) {
            return Err(Error::NotSupportedMultiLocation);
        }
        if fee_item as usize >= currencies.len() {
            return Err(Error::AssetIndexNonExistent);
        }
        let (fee_currency, fee_amount) = currencies[fee_item as usize];
        let mut assets = AssetBundle::new();
        let n = currencies.len();
        let mut i: usize = 0;
        while i < n
            invariant
                n == currencies@.len(),
                n <= self.config.max_assets_for_transfer,
                self.allows(dest@),
                fee_item < n,
                fee_currency == currencies@[fee_item as int].0,
                fee_amount == currencies@[fee_item as int].1,
                i <= n,
                assets.wf(),
                self.collect_currencies(currencies@, 0, Seq::empty()) == self.collect_currencies(
                    currencies@,
                    i as int,
                    assets@,
                ),
            decreases n - i,
        {
            let (currency_id, amount) = currencies[i];
            let location = match self.convert_currency(currency_id) {
                Some(l) => l,
                None => {
                    return Err(Error::NotCrossChainTransferableCurrency);
                },
            };
            if amount == 0 {
                return Err(Error::ZeroAmount);
            }
            assets.push(Asset::new_fungible(location, amount));
            i = i + 1;
        }
        let fee_location = match self.convert_currency(fee_currency) {
            Some(l) => l,
            None => {
                return Err(Error::NotCrossChainTransferableCurrency);
            },
        };
        let fee = Asset::new_fungible(fee_location, fee_amount);
        self.do_transfer_multiassets(who, assets, fee, dest, dest_weight, None)
    }

    /// Transfers `assets` from `who` to `dest`, the one at `fee_item`
    /// paying for execution.
    pub fn transfer_multiassets(
        &self,
        who: &Location,
        assets: AssetBundle,
        fee_item: u32,
        dest: Location,
        dest_weight: u64,
    ) -> (r: Result<Dispatch, Error>)
        requires
            assets.wf(),
        ensures
            fee_item >= assets@.len() ==> is_error(r, Error::AssetIndexNonExistent),
            fee_item < assets@.len() ==> self.is_transfer_result(
                r,
                who@,
                assets@,
                assets@[fee_item as int],
                dest@,
                dest_weight,
                None,
            ),
    {
        let fee = match assets.get(fee_item as usize) {
            Some(f) => f.duplicate(),
            None => {
                return Err(Error::AssetIndexNonExistent);
            },
        };
        self.do_transfer_multiassets(who, assets, fee, dest, dest_weight, None)
    }

    /// The transact program to `dest_chain`: as the origin `who` descends to,
    /// buy execution with the fee, run `call`, and refund what is left to
    /// `refund_recipient`.
    fn send_transact(
        &self,
        fee_location: Location,
        fee_amount: u128,
        dest_chain: Location,
        origin_interior: Vec<Junction>,
        dest_weight: u64,
        call: Vec<u8>,
        refund_recipient: Location,
    ) -> (r: Result<(Location, Vec<Instruction>), Error>)
        ensures
            r is Ok <==> self.transact_fee_at(fee_location@, fee_amount, dest_chain@) is Some,
            r matches Err(e) ==> e == Error::CannotReanchor,
            r matches Ok(s) ==> is_transact_send(
                s,
                dest_chain@,
                origin_interior@,
                self.transact_fee_at(fee_location@, fee_amount, dest_chain@)->0,
                dest_weight,
                call@,
                refund_recipient@,
            ),
    {
        let fee = reanchor_asset(&Asset::new_fungible(fee_location, fee_amount), &dest_chain, &self.config.ancestry)?;
        let fees = AssetBundle::single(fee.duplicate());
        let n = fees.len() as u32;
        let program = vec![
            Instruction::DescendOrigin(origin_interior),
            Instruction::WithdrawAsset(fees),
            Instruction::BuyExecution { fees: fee, weight_limit: dest_weight },
            Instruction::Transact {
                origin_kind: OriginKind::SovereignAccount,
                require_weight_at_most: dest_weight,
                call,
            },
            Instruction::RefundSurplus,
            Instruction::DepositAsset { max_assets: n, beneficiary: refund_recipient },
        ];
        Ok((dest_chain, program))
    }

    /// Runs `call` on chain `dest_id` as `who`'s own origin there, paying
    /// `transact_fee` of currency `currency_id`.
    pub fn transact(
        &self,
        who: &Location,
        currency_id: u32,
        dest_id: u32,
        dest_weight: u64,
        encoded_call_data: Vec<u8>,
        transact_fee: u128,
    ) -> (r: Result<Dispatch, Error>)
        ensures
            ({
                let dest_chain = loc(1, seq![Junction::Parachain(dest_id)]);
                if self.config.max_transact_size > TRANSACT_SIZE_CEILING || encoded_call_data@.len()
                    > self.config.max_transact_size {
                    is_error(r, Error::TransactTooLarge)
                } else {
                    match self.currency_location(currency_id) {
                        None => is_error(r, Error::NotCrossChainTransferableCurrency),
                        Some(l) => match self.transact_fee_at(l, transact_fee, dest_chain) {
                            None => is_error(r, Error::CannotReanchor),
                            Some(fees) => r matches Ok(d) && d.executions@.len() == 0 && d.events@.len() == 0
                                && d.sends@.len() == 1 && is_transact_send(
                                d.sends@[0],
                                dest_chain,
                                who.interior@,
                                fees,
                                dest_weight,
                                encoded_call_data@,
                                self.self_location(),
                            ),
                        },
                    }
                }
            }),
    {
        if self.config.max_transact_size > TRANSACT_SIZE_CEILING || encoded_call_data.len()
            > self.config.max_transact_size as usize {
            return Err(Error::TransactTooLarge);
        }
        self.do_transact(who, currency_id, transact_fee, dest_id, dest_weight, encoded_call_data)
    }

    fn do_transact(
        &self,
        who: &Location,
        currency_id: u32,
        transact_fee: u128,
        dest_id: u32,
        dest_weight: u64,
        encoded_call_data: Vec<u8>,
    ) -> (r: Result<Dispatch, Error>)
        ensures
            ({
                let dest_chain = loc(1, seq![Junction::Parachain(dest_id)]);
                match self.currency_location(currency_id) {
                    None => is_error(r, Error::NotCrossChainTransferableCurrency),
                    Some(l) => match self.transact_fee_at(l, transact_fee, dest_chain) {
                        None => is_error(r, Error::CannotReanchor),
                        Some(fees) => r matches Ok(d) && d.executions@.len() == 0 && d.events@.len() == 0
                            && d.sends@.len() == 1 && is_transact_send(
                            d.sends@[0],
                            dest_chain,
                            who.interior@,
                            fees,
                            dest_weight,
                            encoded_call_data@,
                            self.self_location(),
                        ),
                    },
                }
            }),
    {
        let fee_location = match self.convert_currency(currency_id) {
            Some(l) => l,
            None => {
                return Err(Error::NotCrossChainTransferableCurrency);
            },
        };
        let origin_interior = who.duplicate().interior;
        let send = self.send_transact(
            fee_location,
            transact_fee,
            Location::sibling(dest_id),
            origin_interior,
            dest_weight,
            encoded_call_data,
            self.config.self_location.duplicate(),
        )?;
        let mut sends = Vec::new();
        sends.push(send);
        Ok(Dispatch { executions: Vec::new(), sends, events: Vec::new() })
    }
}

impl Pallet {
    /// Transfers `amount` of currency `currency_id` from `who` to chain
    /// `dest_chain_id`, to this chain's sub-account of `who` there, then
    /// runs `call` there as `who`'s own origin, paying `transact_fee` of the
    /// same currency and refunding to that sub-account.
    pub fn transfer_with_transact(
        &self,
        who: &Location,
        currency_id: u32,
        amount: u128,
        dest_chain_id: u32,
        dest_weight: u64,
        encoded_call_data: Vec<u8>,
        transact_fee: u128,
    ) -> (r: Result<Dispatch, Error>)
        ensures
            ({
                let dest_chain = loc(1, seq![Junction::Parachain(dest_chain_id)]);
                let dest = appended_or_same(dest_chain, who.interior@);
                let recipient = appended_or_same(self.self_location(), who.interior@);
                if self.config.max_transact_size > TRANSACT_SIZE_CEILING || encoded_call_data@.len()
                    > self.config.max_transact_size {
                    is_error(r, Error::TransactTooLarge)
                } else if amount == 0 {
                    is_error(r, Error::ZeroAmount)
                } else if !self.allows(dest) {
                    is_error(r, Error::NotSupportedMultiLocation)
                } else {
                    match self.currency_location(currency_id) {
                        None => is_error(r, Error::NotCrossChainTransferableCurrency),
                        Some(l) => match self.transfer_outcome(
                            who@,
                            seq![fungible(l, amount)],
                            fungible(l, amount),
                            dest,
                            Some(recipient),
                        ) {
                            Err(e) => is_error(r, e),
                            Ok(legs) => match self.transact_fee_at(l, transact_fee, dest_chain) {
                                None => is_error(r, Error::CannotReanchor),
                                Some(fees) => r matches Ok(d) && self.executes_legs(
                                    d,
                                    legs,
                                    who@,
                                    seq![fungible(l, amount)],
                                    fungible(l, amount),
                                    dest,
                                    dest_weight,
                                ) && d.sends@.len() == 1 && is_transact_send(
                                    d.sends@[0],
                                    dest_chain,
                                    who.interior@,
                                    fees,
                                    dest_weight,
                                    encoded_call_data@,
                                    recipient,
                                ),
                            },
                        },
                    }
                }
            }),
    {
        if self.config.max_transact_size > TRANSACT_SIZE_CEILING || encoded_call_data.len()
            > self.config.max_transact_size as usize {
            return Err(Error::TransactTooLarge);
        }
        if amount == 0 {
            return Err(Error::ZeroAmount);
        }
        let origin_interior = who.duplicate().interior;
        let mut dest_location = Location::sibling(dest_chain_id);
        let _ = dest_location.append_with(&origin_interior);
        if !self.locations_allowed(&dest_location) {
            return Err(Error::NotSupportedMultiLocation);
        }
        let fee_location = match self.convert_currency(currency_id) {
            Some(l) => l,
            None => {
                return Err(Error::NotCrossChainTransferableCurrency);
            },
        };
        let asset = Asset::new_fungible(fee_location.duplicate(), amount);
        let mut recipient = self.config.self_location.duplicate();
        let _ = recipient.append_with(&origin_interior);
        let mut d = self.do_transfer_multiassets(
            who,
            AssetBundle::single(asset.duplicate()),
            asset,
            dest_location.duplicate(),
            dest_weight,
            Some(recipient.duplicate()),
        )?;
        let dest_chain = match dest_location.chain_part() {
            Some(c) => c,
            None => {
                return Err(Error::InvalidDest);
            },
        };
        assert(dest_chain@ == loc(1, seq![Junction::Parachain(dest_chain_id)]));
        let send = self.send_transact(
            fee_location,
            transact_fee,
            dest_chain,
            origin_interior,
            dest_weight,
            encoded_call_data,
            recipient,
        )?;
        d.sends.push(send);
        Ok(d)
    }
}

/// The sum of the amounts of `s`.
pub open spec fn total(s: Seq<AssetView>) -> int
    decreases s.len(),
{
    if s.len() == 0 {
        0
    } else {
        amount_of(s[0]) + total(s.drop_first())
    }
}

/// The sum of what the legs take from the sender.
pub open spec fn legs_total(legs: Seq<Leg>) -> int
    decreases legs.len(),
{
    if legs.len() == 0 {
        0
    } else {
        total(legs[0].assets) + legs_total(legs.drop_first())
    }
}

/// The amount an instruction buys execution with, if it does.
pub open spec fn buy_amount(i: Instruction) -> int {
    match i {
        Instruction::BuyExecution { fees, .. } => amount_of(fees@) as int,
        _ => 0,
    }
}

/// What both hops of a program through a reserve buy execution with.
pub open spec fn non_reserve_fee_total(p: Seq<Instruction>) -> int {
    match p[1] {
        Instruction::InitiateReserveWithdraw { xcm, .. } => buy_amount(xcm@[0]) + match xcm@[1] {
            Instruction::DepositReserveAsset { xcm: inner, .. } => buy_amount(inner@[0]),
            _ => 0,
        },
        _ => 0,
    }
}

/// The assets a locally executed program takes from the sender: those its
/// first instruction withdraws or moves.
pub open spec fn withdrawn(p: Seq<Instruction>) -> Seq<AssetView> {
    if p.len() == 0 {
        Seq::empty()
    } else {
        match p[0] {
            Instruction::WithdrawAsset(b) => b@,
            Instruction::TransferReserveAsset { assets, .. } => assets@,
            _ => Seq::empty(),
        }
    }
}

/// The sum of what the programs take from the sender.
pub open spec fn withdrawn_total(ps: Seq<Vec<Instruction>>) -> int
    decreases ps.len(),
{
    if ps.len() == 0 {
        0
    } else {
        total(withdrawn(ps[0]@)) + withdrawn_total(ps.drop_first())
    }
}

proof fn lemma_total_update(s: Seq<AssetView>, k: int, v: AssetView)
    requires
        0 <= k < s.len(),
    ensures
        total(s.update(k, v)) == total(s) - amount_of(s[k]) + amount_of(v),
    decreases s.len(),
{
    if k > 0 {
        lemma_total_update(s.drop_first(), k - 1, v);
        assert(s.update(k, v).drop_first() =~= s.drop_first().update(k - 1, v));
    } else {
        assert(s.update(k, v).drop_first() =~= s.drop_first());
    }
}

impl Pallet {
    /// A transfer that goes through runs one program when the fee shares
    /// the reserve of the other assets, and two when it does not.
    pub proof fn lemma_message_count(
        &self,
        origin: LocationView,
        assets: Seq<AssetView>,
        fee: AssetView,
        dest: LocationView,
        recipient: Option<LocationView>,
    )
        requires
            self.transfer_outcome(origin, assets, fee, dest, recipient) is Ok,
        ensures
            ({
                let legs = self.transfer_outcome(origin, assets, fee, dest, recipient)->Ok_0;
                let asset_reserve = self.non_fee_reserve(assets, fee)->Ok_0;
                &&& self.non_fee_reserve(assets, fee) is Ok
                &&& self.reserve_of(fee) == Some(asset_reserve) ==> legs.len() == 1
                &&& self.reserve_of(fee) != Some(asset_reserve) ==> legs.len() == 2
            }),
    {
    }

    /// Through a reserve that is neither here nor the destination, the two
    /// hops buy execution with halves of the fee that make up all of it,
    /// for a fee of even amount.
    pub proof fn lemma_non_reserve_fee_halves(&self, p: Seq<Instruction>, leg: Leg, dest: LocationView, weight: u64)
        requires
            self.is_leg_program(p, leg, dest, weight),
            route_of(self.self_location(), leg.reserve, dest) is Ok,
            route_of(self.self_location(), leg.reserve, dest)->Ok_0.0 == TransferKind::ToNonReserve,
            amount_of(leg.fee) % 2 == 0,
        ensures
            non_reserve_fee_total(p) == amount_of(leg.fee),
    {
    }

    /// What the legs of a transfer take from the sender adds up to the
    /// whole bundle, fee included, where the fee is one of the bundle's
    /// assets whenever its reserve differs from the other assets'.
    pub proof fn lemma_sender_pays_bundle(
        &self,
        origin: LocationView,
        assets: Seq<AssetView>,
        fee: AssetView,
        dest: LocationView,
        recipient: Option<LocationView>,
    )
        requires
            is_sorted(assets),
            fungibles_unique(assets),
            self.planned_legs(origin, assets, fee, dest, recipient) is Ok,
            self.reserve_of(fee) != Some(self.non_fee_reserve(assets, fee)->Ok_0) ==> assets.contains(fee),
        ensures
            legs_total(self.planned_legs(origin, assets, fee, dest, recipient)->Ok_0) == total(assets),
    {
        let legs = self.planned_legs(origin, assets, fee, dest, recipient)->Ok_0;
        assert(legs.drop_first().len() < legs.len());
        assert(legs_total(legs) == total(legs[0].assets) + legs_total(legs.drop_first()));
        if legs.len() == 1 {
            assert(legs.drop_first().len() == 0);
            assert(legs_total(legs.drop_first()) == 0);
            assert(legs[0].assets == assets);
        } else {
            let min_fee = self.min_xcm_fee(self.reserve_of(fee)->0)->0;
            let to_dest = fungible(fee.id, min_fee);
            let to_fee_reserve = fungible(fee.id, (amount_of(fee) - min_fee) as u128);
            assert(legs[0].assets == seq![to_fee_reserve]);
            assert(legs[1].assets == replaced(assets, fee, to_dest));
            let k = choose|k: int| 0 <= k < assets.len() && assets[k] == fee;
            assert(fee.fun is Fungible);
            assert forall|j: int| 0 <= j < assets.len() && j != k implies assets[j] != fee by {
                if assets[j] == fee {
                    assert(assets[j].fun is Fungible && assets[k].fun is Fungible);
                }
            }
            assert(replaced(assets, fee, to_dest) =~= assets.update(k, to_dest));
            lemma_total_update(assets, k, to_dest);
            assert(total(seq![to_fee_reserve].drop_first()) == 0);
            assert(total(seq![to_fee_reserve]) == amount_of(fee) - min_fee);
            let rest = legs.drop_first();
            assert(rest[0] == legs[1]);
            assert(rest.drop_first().len() == 0);
            assert(legs_total(rest.drop_first()) == 0);
            assert(legs_total(rest) == total(rest[0].assets));
        }
    }
}

/// `p` is the program weighed in place of a transfer of the given kind to
/// the chain `dest`: a reserve transfer of `reserve_assets` with no inner
/// program, or a withdrawal of `withdraw_assets` followed by a reserve
/// withdrawal towards `dest` with no inner program.
pub open spec fn is_weight_probe(
    p: Seq<Instruction>,
    kind: TransferKind,
    reserve_assets: Seq<AssetView>,
    withdraw_assets: Seq<AssetView>,
    dest: LocationView,
) -> bool {
    if kind == TransferKind::SelfReserveAsset {
        p.len() == 1 && match p[0] {
            Instruction::TransferReserveAsset { assets, dest: d, xcm } => assets@ == reserve_assets && d@ == dest
                && xcm@.len() == 0,
            _ => false,
        }
    } else {
        p.len() == 2 && match p[0] {
            Instruction::WithdrawAsset(a) => a@ == withdraw_assets,
            _ => false,
        } && match p[1] {
            Instruction::InitiateReserveWithdraw { reserve, xcm } => reserve@ == dest && xcm@.len() == 0,
            _ => false,
        }
    }
}

/// The weight charged for a measured program: the base weight on top,
/// saturating; the most weight there is where the program could not be
/// measured.
pub open spec fn charged(base: u64, measured: Option<u64>) -> u64 {
    match measured {
        None => u64::MAX,
        Some(w) => if base + w > u64::MAX {
            u64::MAX
        } else {
            (base + w) as u64
        },
    }
}

/// The weight charged for a measured program.
pub fn charged_weight(base: u64, measured: Option<u64>) -> (r: u64)
    ensures
        r == charged(base, measured),
{
    match measured {
        None => u64::MAX,
        Some(w) => base.saturating_add(w),
    }
}

impl Pallet {
    /// The reserve that decides the route of `assets` for weighing.
    pub fn get_reserve_location(&self, assets: &AssetBundle, fee_item: u32) -> (r: Option<Location>)
        ensures
            opt_view(r) == self.weighing_reserve(assets@, fee_item),
    {
        let i: usize = if assets.len() == 1 {
            0
        } else if fee_item == 0 {
            1
        } else {
            0
        };
        match assets.get(i) {
            Some(a) => self.reserve(a),
            None => None,
        }
    }

    /// The program to weigh for a transfer of `asset` to `dest`; none where
    /// the route is refused, which is charged nothing.
    pub fn weight_probe_of_transfer_multiasset(&self, asset: &Asset, dest: &Location) -> (r: Option<Vec<Instruction>>)
        ensures
            r is Some <==> route_of(self.self_location(), self.reserve_of(asset@), dest@) is Ok,
            r matches Some(p) ==> ({
                let route = route_of(self.self_location(), self.reserve_of(asset@), dest@)->Ok_0;
                is_weight_probe(p@, route.0, Seq::empty(), seq![asset@], route.1)
            }),
    {
        match self.transfer_kind(self.reserve(asset), dest) {
            Ok((kind, d, _, _)) => {
                if kind == TransferKind::SelfReserveAsset {
                    Some(vec![Instruction::TransferReserveAsset { assets: AssetBundle::new(), dest: d, xcm: Vec::new() }])
                } else {
                    Some(
                        vec![
                            Instruction::WithdrawAsset(AssetBundle::single(asset.duplicate())),
                            Instruction::InitiateReserveWithdraw { reserve: d, xcm: Vec::new() },
                        ],
                    )
                }
            },
            Err(_) => None,
        }
    }

    /// The program to weigh for a transfer of `assets` to `dest` paid by
    /// the asset at `fee_item`; none where the route is refused.
    pub fn weight_probe_of_transfer_multiassets(&self, assets: &AssetBundle, fee_item: u32, dest: &Location) -> (r:
        Option<Vec<Instruction>>)
        ensures
            r is Some <==> route_of(self.self_location(), self.weighing_reserve(assets@, fee_item), dest@) is Ok,
            r matches Some(p) ==> ({
                let route = route_of(self.self_location(), self.weighing_reserve(assets@, fee_item), dest@)->Ok_0;
                is_weight_probe(p@, route.0, assets@, assets@, route.1)
            }),
    {
        match self.transfer_kind(self.get_reserve_location(assets, fee_item), dest) {
            Ok((kind, d, _, _)) => {
                if kind == TransferKind::SelfReserveAsset {
                    Some(vec![Instruction::TransferReserveAsset { assets: assets.duplicate(), dest: d, xcm: Vec::new() }])
                } else {
                    Some(
                        vec![
                            Instruction::WithdrawAsset(assets.duplicate()),
                            Instruction::InitiateReserveWithdraw { reserve: d, xcm: Vec::new() },
                        ],
                    )
                }
            },
            Err(_) => None,
        }
    }

    /// The program to weigh for a transfer of `amount` of `currency_id`;
    /// none for an unknown currency or a refused route.
    pub fn weight_probe_of_transfer(&self, currency_id: u32, amount: u128, dest: &Location) -> (r: Option<
        Vec<Instruction>,
    >)
        ensures
            match self.currency_location(currency_id) {
                None => r is None,
                Some(l) => {
                    let route = route_of(self.self_location(), self.reserve_of(fungible(l, amount)), dest@);
                    &&& r is Some <==> route is Ok
                    &&& r matches Some(p) ==> is_weight_probe(
                        p@,
                        route->Ok_0.0,
                        Seq::empty(),
                        seq![fungible(l, amount)],
                        route->Ok_0.1,
                    )
                },
            },
    {
        match self.convert_currency(currency_id) {
            Some(location) => self.weight_probe_of_transfer_multiasset(&Asset::new_fungible(location, amount), dest),
            None => None,
        }
    }

    /// The program to weigh for a transfer of several currencies; none
    /// where a currency is unknown or the route is refused.
    pub fn weight_probe_of_transfer_multicurrencies(
        &self,
        currencies: &Vec<(u32, u128)>,
        fee_item: u32,
        dest: &Location,
    ) -> (r: Option<Vec<Instruction>>)
        ensures
            match self.weighed_bundle(currencies@, 0, Seq::empty()) {
                None => r is None,
                Some(assets) => {
                    let route = route_of(self.self_location(), self.weighing_reserve(assets, fee_item), dest@);
                    &&& r is Some <==> route is Ok
                    &&& r matches Some(p) ==> is_weight_probe(
                        p@,
                        route->Ok_0.0,
                        assets,
                        assets,
                        route->Ok_0.1,
                    )
                },
            },
    {
        let mut assets = AssetBundle::new();
        let n = currencies.len();
        let mut i: usize = 0;
        while i < n
            invariant
                n == currencies@.len(),
                i <= n,
                assets.wf(),
                self.weighed_bundle(currencies@, 0, Seq::empty()) == self.weighed_bundle(
                    currencies@,
                    i as int,
                    assets@,
                ),
            decreases n - i,
        {
            let (currency_id, amount) = currencies[i];
            match self.convert_currency(currency_id) {
                Some(location) => assets.push(Asset::new_fungible(location, amount)),
                None => {
                    return None;
                },
            }
            i = i + 1;
        }
        self.weight_probe_of_transfer_multiassets(&assets, fee_item, dest)
    }

    /// The programs to weigh for a transfer with transact: the transfer's,
    /// where its route is not refused, and the transact's; none for an
    /// unknown currency.
    pub fn weight_probe_of_transfer_with_transact(&self, currency_id: u32, amount: u128, dest_chain_id: u32) -> (r:
        Option<(Option<Vec<Instruction>>, Vec<Instruction>)>)
        ensures
            match self.currency_location(currency_id) {
                None => r is None,
                Some(l) => {
                    let dest = loc(1, seq![Junction::Parachain(dest_chain_id)]);
                    let route = route_of(self.self_location(), self.reserve_of(fungible(l, amount)), dest);
                    let pair = r->0;
                    let (transfer, transact) = pair;
                    &&& r is Some
                    &&& transact@.len() == 0
                    &&& transfer is Some <==> route is Ok
                    &&& transfer matches Some(p) ==> is_weight_probe(
                        p@,
                        route->Ok_0.0,
                        Seq::empty(),
                        seq![fungible(l, amount)],
                        route->Ok_0.1,
                    )
                },
            },
    {
        match self.convert_currency(currency_id) {
            Some(location) => {
                let dest = Location::sibling(dest_chain_id);
                let transfer = self.weight_probe_of_transfer_multiasset(&Asset::new_fungible(location, amount), &dest);
                Some((transfer, Pallet::weight_probe_of_send_transact()))
            },
            None => None,
        }
    }

    /// The program to weigh for a transact: nothing runs locally.
    pub fn weight_probe_of_send_transact() -> (r: Vec<Instruction>)
        ensures
            r@.len() == 0,
    {
        Vec::new()
    }
}

impl Pallet {
    /// The program of a leg takes exactly the leg's assets from the sender.
    pub proof fn lemma_leg_program_withdraws(&self, p: Seq<Instruction>, leg: Leg, dest: LocationView, weight: u64)
        requires
            self.is_leg_program(p, leg, dest, weight),
        ensures
            withdrawn(p) == leg.assets,
    {
    }

    /// What the programs of a successful transfer take from the sender adds
    /// up to the whole bundle, fee included, where the fee is one of the
    /// bundle's assets whenever its reserve differs from the other assets'.
    pub proof fn lemma_dispatch_pays_bundle(
        &self,
        d: Dispatch,
        origin: LocationView,
        assets: Seq<AssetView>,
        fee: AssetView,
        dest: LocationView,
        weight: u64,
        recipient: Option<LocationView>,
    )
        requires
            is_sorted(assets),
            fungibles_unique(assets),
            self.is_transfer_result(Ok(d), origin, assets, fee, dest, weight, recipient),
            self.reserve_of(fee) != Some(self.non_fee_reserve(assets, fee)->Ok_0) ==> assets.contains(fee),
        ensures
            withdrawn_total(d.executions@) == total(assets),
    {
        let legs = self.transfer_outcome(origin, assets, fee, dest, recipient)->Ok_0;
        assert(legs == self.planned_legs(origin, assets, fee, dest, recipient)->Ok_0);
        self.lemma_sender_pays_bundle(origin, assets, fee, dest, recipient);
        let ps = d.executions@;
        assert(legs.len() == 1 || legs.len() == 2);
        self.lemma_leg_program_withdraws(ps[0]@, legs[0], dest, weight);
        assert(withdrawn_total(ps) == total(withdrawn(ps[0]@)) + withdrawn_total(ps.drop_first()));
        assert(legs_total(legs) == total(legs[0].assets) + legs_total(legs.drop_first()));
        if legs.len() == 2 {
            self.lemma_leg_program_withdraws(ps[1]@, legs[1], dest, weight);
            let pr = ps.drop_first();
            let lr = legs.drop_first();
            assert(pr[0] == ps[1]);
            assert(lr[0] == legs[1]);
            assert(withdrawn_total(pr) == total(withdrawn(pr[0]@)) + withdrawn_total(pr.drop_first()));
            assert(legs_total(lr) == total(lr[0].assets) + legs_total(lr.drop_first()));
            assert(pr.drop_first().len() == 0);
            assert(lr.drop_first().len() == 0);
            assert(withdrawn_total(pr.drop_first()) == 0);
            assert(legs_total(lr.drop_first()) == 0);
        } else {
            assert(ps.drop_first().len() == 0);
            assert(legs.drop_first().len() == 0);
            assert(withdrawn_total(ps.drop_first()) == 0);
            assert(legs_total(legs.drop_first()) == 0);
        }
    }
}

} // verus!
