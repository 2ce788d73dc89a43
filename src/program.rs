//! Instruction programs and the shapes that the planner builds.

use vstd::prelude::*;
use crate::asset::{AssetBundle, Asset, AssetView};
use crate::location::{Junction, Location, LocationView};

verus! {

/// The origin under which a remote call runs.
#[derive(Clone, Copy, Debug, PartialEq, Eq, Structural)]
pub enum OriginKind {
    /// The chain's own native origin.
    Native,
    /// The sovereign account of the sending location.
    SovereignAccount,
    /// The superuser origin.
    Superuser,
    /// The cross-chain origin as such.
    Xcm,
}

/// One instruction of a cross-chain program. Instructions that act on "all
/// held assets" carry no asset list.
#[derive(Debug)]
pub enum Instruction {
    WithdrawAsset(AssetBundle),
    TransferReserveAsset { assets: AssetBundle, dest: Location, xcm: Vec<Instruction> },
    InitiateReserveWithdraw { reserve: Location, xcm: Vec<Instruction> },
    DepositReserveAsset { max_assets: u32, dest: Location, xcm: Vec<Instruction> },
    BuyExecution { fees: Asset, weight_limit: u64 },
    DepositAsset { max_assets: u32, beneficiary: Location },
    DescendOrigin(Vec<Junction>),
    Transact { origin_kind: OriginKind, require_weight_at_most: u64, call: Vec<u8> },
    RefundSurplus,
}

pub open spec fn is_buy_execution(i: Instruction, fees: AssetView, weight: u64) -> bool {
    match i {
        Instruction::BuyExecution { fees: f, weight_limit } => f@ == fees && weight_limit == weight,
        _ => false,
    }
}

pub open spec fn is_deposit_asset(i: Instruction, max_assets: u32, beneficiary: LocationView) -> bool {
    match i {
        Instruction::DepositAsset { max_assets: m, beneficiary: b } => m == max_assets && b@ == beneficiary,
        _ => false,
    }
}

/// Buy execution with `fees`, then deposit everything to `beneficiary`.
pub open spec fn is_buy_and_deposit(
    xcm: Seq<Instruction>,
    fees: AssetView,
    weight: u64,
    max_assets: u32,
    beneficiary: LocationView,
) -> bool {
    xcm.len() == 2 && is_buy_execution(xcm[0], fees, weight) && is_deposit_asset(
        xcm[1],
        max_assets,
        beneficiary,
    )
}

/// The assets originate here: move them into the destination's account
/// here and tell the destination to credit the recipient.
pub open spec fn is_self_reserve_program(
    p: Seq<Instruction>,
    assets: Seq<AssetView>,
    fees: AssetView,
    dest: LocationView,
    recipient: LocationView,
    weight: u64,
) -> bool {
    p.len() == 1 && match p[0] {
        Instruction::TransferReserveAsset { assets: a, dest: d, xcm } => a@ == assets && d@ == dest
            && is_buy_and_deposit(xcm@, fees, weight, assets.len() as u32, recipient),
        _ => false,
    }
}

/// The destination is the reserve: burn here, release there.
pub open spec fn is_to_reserve_program(
    p: Seq<Instruction>,
    assets: Seq<AssetView>,
    fees: AssetView,
    reserve: LocationView,
    recipient: LocationView,
    weight: u64,
) -> bool {
    p.len() == 2 && match p[0] {
        Instruction::WithdrawAsset(a) => a@ == assets,
        _ => false,
    } && match p[1] {
        Instruction::InitiateReserveWithdraw { reserve: r, xcm } => r@ == reserve && is_buy_and_deposit(
            xcm@,
            fees,
            weight,
            assets.len() as u32,
            recipient,
        ),
        _ => false,
    }
}

/// Neither here nor the destination is the reserve: burn here, release at
/// the reserve, which forwards to the destination; each hop buys execution
/// with its own fee.
pub open spec fn is_to_non_reserve_program(
    p: Seq<Instruction>,
    assets: Seq<AssetView>,
    reserve_fees: AssetView,
    dest_fees: AssetView,
    reserve: LocationView,
    forwarded_dest: LocationView,
    recipient: LocationView,
    weight: u64,
) -> bool {
    p.len() == 2 && match p[0] {
        Instruction::WithdrawAsset(a) => a@ == assets,
        _ => false,
    } && match p[1] {
        Instruction::InitiateReserveWithdraw { reserve: r, xcm } => r@ == reserve && xcm@.len() == 2
            && is_buy_execution(xcm@[0], reserve_fees, weight) && match xcm@[1] {
            Instruction::DepositReserveAsset { max_assets, dest: d, xcm: inner } => max_assets
                == assets.len() as u32 && d@ == forwarded_dest && is_buy_and_deposit(
                inner@,
                dest_fees,
                weight,
                assets.len() as u32,
                recipient,
            ),
            _ => false,
        },
        _ => false,
    }
}

/// Runs `call` on a remote chain as the sender's own sovereign origin,
/// paying with `fees`, and returns what is left to `refund_to`.
pub open spec fn is_transact_program(
    p: Seq<Instruction>,
    origin_interior: Seq<Junction>,
    fees: AssetView,
    weight: u64,
    call: Seq<u8>,
    refund_to: LocationView,
) -> bool {
    p.len() == 6 && match p[0] {
        Instruction::DescendOrigin(j) => j@ == origin_interior,
        _ => false,
    } && match p[1] {
        Instruction::WithdrawAsset(a) => a@ == seq![fees],
        _ => false,
    } && is_buy_execution(p[2], fees, weight) && match p[3] {
        Instruction::Transact { origin_kind, require_weight_at_most, call: c } => origin_kind
            == OriginKind::SovereignAccount && require_weight_at_most == weight && c@ == call,
        _ => false,
    } && p[4] is RefundSurplus && is_deposit_asset(p[5], 1, refund_to)
}

} // verus!
