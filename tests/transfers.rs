use xtokens::asset::{Asset, AssetBundle, Fungibility};
use xtokens::location::{Junction, Location};
use xtokens::pallet::{Config, Dispatch, Error, Event, Pallet, TransferKind};
use xtokens::program::{Instruction, OriginKind};

const SELF_ID: u32 = 2000;
const HUB_FEE_CURRENCY: u32 = 1;
const NATIVE_CURRENCY: u32 = 0;
const SIBLING_CURRENCY: u32 = 2;
const ORPHAN_CURRENCY: u32 = 3;

fn l(parents: u8, interior: Vec<Junction>) -> Location {
    Location::new(parents, interior)
}

fn native_id() -> Location {
    l(1, vec![Junction::Parachain(SELF_ID), Junction::GeneralIndex(1)])
}

fn sibling_token() -> Location {
    l(1, vec![Junction::Parachain(3000), Junction::GeneralIndex(5)])
}

fn hub() -> Location {
    Location::parent()
}

fn alice() -> Location {
    l(0, vec![Junction::AccountIndex64(7)])
}

fn dest_at(chain: u32) -> Location {
    l(1, vec![Junction::Parachain(chain), Junction::AccountIndex64(42)])
}

fn fungible(id: Location, amount: u128) -> Asset {
    Asset::new_fungible(id, amount)
}

fn config(min_fee: Option<u128>) -> Config {
    let mut min_xcm_fees = Vec::new();
    if let Some(m) = min_fee {
        min_xcm_fees.push((hub(), m));
    }
    Config {
        self_location: Location::sibling(SELF_ID),
        ancestry: l(0, vec![Junction::Parachain(SELF_ID)]),
        max_assets_for_transfer: 2,
        max_transact_size: 256,
        currencies: vec![
            (NATIVE_CURRENCY, native_id()),
            (HUB_FEE_CURRENCY, hub()),
            (SIBLING_CURRENCY, sibling_token()),
            (ORPHAN_CURRENCY, l(0, vec![Junction::GeneralIndex(9)])),
        ],
        min_xcm_fees,
        blocked_destinations: vec![Location::sibling(6666)],
        relative_self_reserve: false,
    }
}

fn pallet() -> Pallet {
    Pallet::new(config(Some(3_000)))
}

fn err(r: Result<Dispatch, Error>) -> Error {
    match r {
        Err(e) => e,
        Ok(_) => panic!("expected an error"),
    }
}

fn ok(r: Result<Dispatch, Error>) -> Dispatch {
    match r {
        Ok(d) => d,
        Err(e) => panic!("unexpected error {:?}", e),
    }
}

fn amount_of(a: &Asset) -> u128 {
    match a.fun {
        Fungibility::Fungible(n) => n,
        Fungibility::NonFungible(_) => 0,
    }
}

fn bundle_sum(b: &AssetBundle) -> u128 {
    let mut sum = 0;
    for i in 0..b.len() {
        sum += amount_of(b.get(i).unwrap());
    }
    sum
}

/// The assets a locally executed program takes from the sender.
fn withdrawn(program: &[Instruction]) -> u128 {
    match &program[0] {
        Instruction::WithdrawAsset(b) => bundle_sum(b),
        Instruction::TransferReserveAsset { assets, .. } => bundle_sum(assets),
        other => panic!("unexpected first instruction {:?}", other),
    }
}

fn buy_amount(i: &Instruction) -> u128 {
    match i {
        Instruction::BuyExecution { fees, .. } => amount_of(fees),
        other => panic!("expected BuyExecution, got {:?}", other),
    }
}

#[test]
fn local_native_to_sibling_chain() {
    let p = pallet();
    let d = ok(p.transfer(&alice(), NATIVE_CURRENCY, 1_000, dest_at(3000), 5_000));
    assert_eq!(d.executions.len(), 1);
    let prog = &d.executions[0];
    assert_eq!(prog.len(), 1);
    match &prog[0] {
        Instruction::TransferReserveAsset { assets, dest, xcm } => {
            assert_eq!(*dest, Location::sibling(3000));
            assert_eq!(assets.len(), 1);
            assert_eq!(xcm.len(), 2);
            match &xcm[0] {
                Instruction::BuyExecution { fees, weight_limit } => {
                    assert_eq!(*weight_limit, 5_000);
                    assert_eq!(fees.id, native_id());
                    assert_eq!(amount_of(fees), 1_000);
                }
                other => panic!("{:?}", other),
            }
            match &xcm[1] {
                Instruction::DepositAsset { max_assets, beneficiary } => {
                    assert_eq!(*max_assets, 1);
                    assert_eq!(*beneficiary, l(0, vec![Junction::AccountIndex64(42)]));
                }
                other => panic!("{:?}", other),
            }
        }
        other => panic!("{:?}", other),
    }
}

#[test]
fn sibling_asset_back_to_its_reserve() {
    let p = pallet();
    let d = ok(p.transfer(&alice(), SIBLING_CURRENCY, 500, dest_at(3000), 5_000));
    assert_eq!(d.executions.len(), 1);
    let prog = &d.executions[0];
    assert_eq!(prog.len(), 2);
    assert!(matches!(prog[0], Instruction::WithdrawAsset(_)));
    match &prog[1] {
        Instruction::InitiateReserveWithdraw { reserve, xcm } => {
            assert_eq!(*reserve, Location::sibling(3000));
            match &xcm[0] {
                Instruction::BuyExecution { fees, .. } => {
                    // reanchored: the reserve sees its own token from inside
                    assert_eq!(fees.id, l(0, vec![Junction::GeneralIndex(5)]));
                }
                other => panic!("{:?}", other),
            }
            assert!(matches!(xcm[1], Instruction::DepositAsset { .. }));
        }
        other => panic!("{:?}", other),
    }
}

#[test]
fn third_party_asset_via_hub() {
    let p = pallet();
    let d = ok(p.transfer(&alice(), HUB_FEE_CURRENCY, 1_001, dest_at(4000), 5_000));
    let prog = &d.executions[0];
    match &prog[1] {
        Instruction::InitiateReserveWithdraw { reserve, xcm } => {
            assert_eq!(*reserve, hub());
            assert_eq!(buy_amount(&xcm[0]), 500);
            match &xcm[0] {
                Instruction::BuyExecution { fees, .. } => assert_eq!(fees.id, Location::here()),
                other => panic!("{:?}", other),
            }
            match &xcm[1] {
                Instruction::DepositReserveAsset { dest, xcm: inner, .. } => {
                    assert_eq!(*dest, l(0, vec![Junction::Parachain(4000)]));
                    assert_eq!(buy_amount(&inner[0]), 500);
                }
                other => panic!("{:?}", other),
            }
        }
        other => panic!("{:?}", other),
    }
}

#[test]
fn split_fee_case() {
    let p = pallet();
    let d = ok(p.transfer_multiasset_with_fee(
        &alice(),
        fungible(sibling_token(), 500),
        fungible(hub(), 10_000),
        dest_at(3000),
        5_000,
    ));
    assert_eq!(d.executions.len(), 2);
    // first leg: the fee less the least fee, to the hub
    let first = &d.executions[0];
    match &first[0] {
        Instruction::WithdrawAsset(b) => {
            assert_eq!(b.len(), 1);
            assert_eq!(*b.get(0).unwrap(), fungible(hub(), 7_000));
        }
        other => panic!("{:?}", other),
    }
    match &first[1] {
        Instruction::InitiateReserveWithdraw { reserve, xcm } => {
            assert_eq!(*reserve, hub());
            match &xcm[1] {
                Instruction::DepositReserveAsset { xcm: inner, .. } => match &inner[1] {
                    Instruction::DepositAsset { beneficiary, .. } => assert_eq!(
                        *beneficiary,
                        l(1, vec![Junction::Parachain(SELF_ID), Junction::AccountIndex64(7)])
                    ),
                    other => panic!("{:?}", other),
                },
                other => panic!("{:?}", other),
            }
        }
        other => panic!("{:?}", other),
    }
    // second leg: the other assets and the least fee, to their reserve
    let second = &d.executions[1];
    match &second[0] {
        Instruction::WithdrawAsset(b) => {
            assert_eq!(b.len(), 2);
            assert_eq!(*b.get(0).unwrap(), fungible(hub(), 3_000));
            assert_eq!(*b.get(1).unwrap(), fungible(sibling_token(), 500));
        }
        other => panic!("{:?}", other),
    }
    match &second[1] {
        Instruction::InitiateReserveWithdraw { reserve, .. } => assert_eq!(*reserve, Location::sibling(3000)),
        other => panic!("{:?}", other),
    }
}

#[test]
fn fee_too_low_to_split() {
    let p = pallet();
    let r = p.transfer_multiasset_with_fee(
        &alice(),
        fungible(sibling_token(), 500),
        fungible(hub(), 2_500),
        dest_at(3000),
        5_000,
    );
    assert_eq!(err(r), Error::FeeNotEnough);
}

#[test]
fn transfer_with_transact_program() {
    let p = pallet();
    let call = vec![0xAB, 0xCD];
    let d = ok(p.transfer_with_transact(&alice(), SIBLING_CURRENCY, 100, 3000, 1_000_000, call.clone(), 50));
    assert_eq!(d.executions.len(), 1);
    assert_eq!(withdrawn(&d.executions[0]), 100);
    assert_eq!(d.sends.len(), 1);
    let (to, prog) = &d.sends[0];
    assert_eq!(*to, Location::sibling(3000));
    assert_eq!(prog.len(), 6);
    match &prog[0] {
        Instruction::DescendOrigin(j) => assert_eq!(*j, vec![Junction::AccountIndex64(7)]),
        other => panic!("{:?}", other),
    }
    match &prog[1] {
        Instruction::WithdrawAsset(b) => {
            assert_eq!(*b.get(0).unwrap(), fungible(l(0, vec![Junction::GeneralIndex(5)]), 50));
        }
        other => panic!("{:?}", other),
    }
    assert_eq!(buy_amount(&prog[2]), 50);
    match &prog[3] {
        Instruction::Transact { origin_kind, require_weight_at_most, call: c } => {
            assert_eq!(*origin_kind, OriginKind::SovereignAccount);
            assert_eq!(*require_weight_at_most, 1_000_000);
            assert_eq!(*c, call);
        }
        other => panic!("{:?}", other),
    }
    assert!(matches!(prog[4], Instruction::RefundSurplus));
    match &prog[5] {
        Instruction::DepositAsset { max_assets, beneficiary } => {
            assert_eq!(*max_assets, 1);
            assert_eq!(*beneficiary, l(1, vec![Junction::Parachain(SELF_ID), Junction::AccountIndex64(7)]));
        }
        other => panic!("{:?}", other),
    }
    // the transfer part goes to the same sub-account
    match &d.executions[0][1] {
        Instruction::InitiateReserveWithdraw { xcm, .. } => match &xcm[1] {
            Instruction::DepositAsset { beneficiary, .. } => assert_eq!(
                *beneficiary,
                l(1, vec![Junction::Parachain(SELF_ID), Junction::AccountIndex64(7)])
            ),
            other => panic!("{:?}", other),
        },
        other => panic!("{:?}", other),
    }
}

#[test]
fn transact_alone_sends_one_program() {
    let p = pallet();
    let d = ok(p.transact(&alice(), SIBLING_CURRENCY, 3000, 9, vec![1, 2, 3], 40));
    assert!(d.executions.is_empty());
    assert!(d.events.is_empty());
    assert_eq!(d.sends.len(), 1);
    match &d.sends[0].1[5] {
        Instruction::DepositAsset { beneficiary, .. } => assert_eq!(*beneficiary, Location::sibling(SELF_ID)),
        other => panic!("{:?}", other),
    }
}

#[test]
fn sender_pays_exactly_the_bundle() {
    let p = pallet();
    let d = ok(p.transfer_multiasset_with_fee(
        &alice(),
        fungible(sibling_token(), 500),
        fungible(hub(), 10_000),
        dest_at(3000),
        5_000,
    ));
    let total: u128 = d.executions.iter().map(|prog| withdrawn(prog)).sum();
    assert_eq!(total, 10_500);
    let d = ok(p.transfer_with_fee(&alice(), NATIVE_CURRENCY, 700, 300, dest_at(3000), 5_000));
    assert_eq!(withdrawn(&d.executions[0]), 1_000);
}

#[test]
fn one_event_with_canonical_bundle() {
    let p = pallet();
    let d = ok(p.transfer_multiasset_with_fee(
        &alice(),
        fungible(sibling_token(), 500),
        fungible(hub(), 10_000),
        dest_at(3000),
        5_000,
    ));
    assert_eq!(d.events.len(), 1);
    match &d.events[0] {
        Event::TransferredMultiAssets { sender, assets, fee, dest } => {
            assert_eq!(*sender, alice());
            assert_eq!(assets.len(), 2);
            // the hub asset sorts first: fewer junctions
            assert_eq!(*assets.get(0).unwrap(), fungible(hub(), 10_000));
            assert_eq!(*assets.get(1).unwrap(), fungible(sibling_token(), 500));
            assert_eq!(*fee, fungible(hub(), 10_000));
            assert_eq!(*dest, dest_at(3000));
        }
    }
}

#[test]
fn message_count_single_and_split() {
    let p = pallet();
    let single = ok(p.transfer(&alice(), SIBLING_CURRENCY, 10, dest_at(3000), 1));
    assert_eq!(single.executions.len(), 1);
    let split = ok(p.transfer_multiasset_with_fee(
        &alice(),
        fungible(sibling_token(), 10),
        fungible(hub(), 5_000),
        dest_at(3000),
        1,
    ));
    assert_eq!(split.executions.len(), 2);
}

#[test]
fn non_reserve_fees_sum_to_fee() {
    let p = pallet();
    let d = ok(p.transfer(&alice(), HUB_FEE_CURRENCY, 1_000, dest_at(4000), 5_000));
    match &d.executions[0][1] {
        Instruction::InitiateReserveWithdraw { xcm, .. } => {
            let outer = buy_amount(&xcm[0]);
            let inner = match &xcm[1] {
                Instruction::DepositReserveAsset { xcm: inner, .. } => buy_amount(&inner[0]),
                other => panic!("{:?}", other),
            };
            assert_eq!(outer + inner, 1_000);
        }
        other => panic!("{:?}", other),
    }
}

#[test]
fn route_kinds() {
    let p = pallet();
    let (k, d, _, recipient) = p.transfer_kind(Some(Location::sibling(SELF_ID)), &dest_at(3000)).unwrap();
    assert_eq!(k, TransferKind::SelfReserveAsset);
    assert_eq!(d, Location::sibling(3000));
    assert_eq!(recipient, l(0, vec![Junction::AccountIndex64(42)]));
    let (k, _, _, _) = p.transfer_kind(Some(Location::sibling(3000)), &dest_at(3000)).unwrap();
    assert_eq!(k, TransferKind::ToReserve);
    let (k, _, _, _) = p.transfer_kind(Some(hub()), &dest_at(3000)).unwrap();
    assert_eq!(k, TransferKind::ToNonReserve);
}

#[test]
fn zero_amount_is_refused() {
    let p = pallet();
    assert_eq!(err(p.transfer(&alice(), NATIVE_CURRENCY, 0, dest_at(3000), 1)), Error::ZeroAmount);
    assert_eq!(
        err(p.transfer_multiasset(&alice(), fungible(native_id(), 0), dest_at(3000), 1)),
        Error::InvalidAsset
    );
}

#[test]
fn zero_fee_is_refused() {
    let p = pallet();
    assert_eq!(err(p.transfer_with_fee(&alice(), NATIVE_CURRENCY, 5, 0, dest_at(3000), 1)), Error::ZeroFee);
}

#[test]
fn too_many_assets_are_refused() {
    let p = pallet();
    let r = p.transfer_multicurrencies(
        &alice(),
        vec![(NATIVE_CURRENCY, 1), (SIBLING_CURRENCY, 1), (HUB_FEE_CURRENCY, 1)],
        0,
        dest_at(3000),
        1,
    );
    assert_eq!(err(r), Error::TooManyAssetsBeingSent);
}

#[test]
fn fee_item_out_of_range() {
    let p = pallet();
    let r = p.transfer_multicurrencies(&alice(), vec![(NATIVE_CURRENCY, 1)], 1, dest_at(3000), 1);
    assert_eq!(err(r), Error::AssetIndexNonExistent);
    let assets = AssetBundle::single(fungible(native_id(), 5));
    assert_eq!(err(p.transfer_multiassets(&alice(), assets, 3, dest_at(3000), 1)), Error::AssetIndexNonExistent);
}

#[test]
fn multicurrencies_with_fee_item() {
    let p = pallet();
    let d = ok(p.transfer_multicurrencies(
        &alice(),
        vec![(SIBLING_CURRENCY, 400), (HUB_FEE_CURRENCY, 6_000)],
        1,
        dest_at(3000),
        1,
    ));
    assert_eq!(d.executions.len(), 2);
    assert_eq!(withdrawn(&d.executions[0]), 3_000);
    assert_eq!(withdrawn(&d.executions[1]), 3_400);
}

#[test]
fn multiassets_with_fee_item() {
    let p = pallet();
    let mut assets = AssetBundle::single(fungible(sibling_token(), 400));
    assets.push(fungible(sibling_token(), 100));
    assert_eq!(assets.len(), 1);
    let d = ok(p.transfer_multiassets(&alice(), assets, 0, dest_at(3000), 1));
    assert_eq!(withdrawn(&d.executions[0]), 500);
}

#[test]
fn dest_is_self() {
    let p = pallet();
    assert_eq!(err(p.transfer(&alice(), NATIVE_CURRENCY, 5, dest_at(SELF_ID), 1)), Error::NotCrossChainTransfer);
}

#[test]
fn dest_without_chain_part() {
    let p = pallet();
    let dest = l(2, vec![Junction::AccountIndex64(1)]);
    assert_eq!(err(p.transfer(&alice(), NATIVE_CURRENCY, 5, dest, 1)), Error::InvalidDest);
    let no_recipient = Location::sibling(3000);
    assert_eq!(err(p.transfer(&alice(), NATIVE_CURRENCY, 5, no_recipient, 1)), Error::InvalidDest);
}

#[test]
fn currency_with_no_reserve() {
    let p = pallet();
    assert_eq!(err(p.transfer(&alice(), ORPHAN_CURRENCY, 5, dest_at(3000), 1)), Error::AssetHasNoReserve);
}

#[test]
fn unknown_currency() {
    let p = pallet();
    assert_eq!(err(p.transfer(&alice(), 99, 5, dest_at(3000), 1)), Error::NotCrossChainTransferableCurrency);
}

#[test]
fn fee_reserve_without_min_fee() {
    let p = Pallet::new(config(None));
    let r = p.transfer_multiasset_with_fee(
        &alice(),
        fungible(sibling_token(), 500),
        fungible(hub(), 10_000),
        dest_at(3000),
        1,
    );
    assert_eq!(err(r), Error::MinXcmFeeNotDefined);
}

#[test]
fn split_to_other_chain_is_refused() {
    let p = pallet();
    let r = p.transfer_multiasset_with_fee(
        &alice(),
        fungible(sibling_token(), 500),
        fungible(hub(), 10_000),
        dest_at(4000),
        1,
    );
    assert_eq!(err(r), Error::InvalidAsset);
}

#[test]
fn distinct_reserves_are_refused() {
    let p = pallet();
    let mut assets = AssetBundle::single(fungible(sibling_token(), 5));
    assets.push(fungible(native_id(), 5));
    assets.push(fungible(hub(), 5));
    let r = p.transfer_multiassets(&alice(), assets, 0, dest_at(3000), 1);
    assert_eq!(err(r), Error::TooManyAssetsBeingSent);
    let mut cfg = config(Some(1));
    cfg.max_assets_for_transfer = 3;
    let p = Pallet::new(cfg);
    let mut assets = AssetBundle::single(fungible(sibling_token(), 5));
    assets.push(fungible(native_id(), 5));
    assets.push(fungible(hub(), 5));
    let r = p.transfer_multiassets(&alice(), assets, 0, dest_at(3000), 1);
    assert_eq!(err(r), Error::DistinctReserveForAssetAndFee);
}

#[test]
fn non_fungible_is_invalid() {
    let p = pallet();
    let nft = Asset { id: native_id(), fun: Fungibility::NonFungible(3) };
    assert_eq!(err(p.transfer_multiasset(&alice(), nft, dest_at(3000), 1)), Error::InvalidAsset);
}

#[test]
fn blocked_destination() {
    let p = pallet();
    assert_eq!(
        err(p.transfer(&alice(), NATIVE_CURRENCY, 5, dest_at(6666), 1)),
        Error::NotSupportedMultiLocation
    );
}

#[test]
fn transact_too_large() {
    let p = pallet();
    let call = vec![0u8; 257];
    assert_eq!(err(p.transact(&alice(), SIBLING_CURRENCY, 3000, 1, call, 1)), Error::TransactTooLarge);
    let mut cfg = config(None);
    cfg.max_transact_size = 300;
    let p = Pallet::new(cfg);
    assert_eq!(err(p.transact(&alice(), SIBLING_CURRENCY, 3000, 1, vec![1], 1)), Error::TransactTooLarge);
}

#[test]
fn fee_that_cannot_be_reanchored() {
    let p = pallet();
    let mut interior = vec![Junction::Parachain(5)];
    for i in 0..7 {
        interior.push(Junction::GeneralIndex(i));
    }
    let asset = fungible(l(0, interior), 100);
    assert_eq!(err(p.transfer_multiasset(&alice(), asset, dest_at(3000), 1)), Error::CannotReanchor);
}

#[test]
fn non_fee_assets_with_and_without_reserve() {
    let mut cfg = config(Some(3_000));
    cfg.max_assets_for_transfer = 3;
    let p = Pallet::new(cfg);
    let fee = fungible(l(1, vec![Junction::Parachain(3000), Junction::GeneralIndex(2)]), 10);
    let mut assets = AssetBundle::single(fungible(l(0, vec![Junction::GeneralIndex(1)]), 10));
    assets.push(fungible(Location::sibling(3000), 10));
    assets.push(fee.clone());
    let fee_item = 2;
    assert_eq!(*assets.get(fee_item).unwrap(), fee);
    let dest = l(1, vec![Junction::Parachain(3000), Junction::AccountIndex64(1)]);
    let r = p.transfer_multiassets(&alice(), assets, fee_item as u32, dest, 1);
    assert_eq!(err(r), Error::DistinctReserveForAssetAndFee);
}

#[test]
fn no_non_fee_asset_has_a_reserve() {
    let p = pallet();
    let fee = fungible(Location::sibling(3000), 10);
    let mut assets = AssetBundle::single(fungible(l(0, vec![Junction::GeneralIndex(1)]), 10));
    assets.push(fee.clone());
    assert_eq!(*assets.get(1).unwrap(), fee);
    let r = p.transfer_multiassets(&alice(), assets, 1, dest_at(3000), 1);
    assert_eq!(err(r), Error::AssetHasNoReserve);
}

#[test]
fn fee_sorted_last_is_not_compared() {
    let p = pallet();
    let r = p.transfer_multiasset_with_fee(
        &alice(),
        fungible(Location::sibling(3000), 500),
        fungible(native_id(), 1_000),
        dest_at(3000),
        1,
    );
    assert_eq!(err(r), Error::MinXcmFeeNotDefined);
}

#[test]
fn relative_self_asset_is_self_reserve() {
    let mut cfg = config(None);
    cfg.relative_self_reserve = true;
    let p = Pallet::new(cfg);
    let local = fungible(l(0, vec![Junction::GeneralIndex(1)]), 100);
    assert_eq!(p.reserve(&local), Some(Location::sibling(SELF_ID)));
    let d = ok(p.transfer_multiasset(&alice(), local, dest_at(3000), 1));
    match &d.executions[0][0] {
        Instruction::TransferReserveAsset { xcm, .. } => match &xcm[0] {
            Instruction::BuyExecution { fees, .. } => {
                assert_eq!(fees.id, l(1, vec![Junction::Parachain(SELF_ID), Junction::GeneralIndex(1)]))
            }
            other => panic!("{:?}", other),
        },
        other => panic!("{:?}", other),
    }
    let orphan = fungible(l(0, vec![Junction::GeneralIndex(1)]), 100);
    assert_eq!(pallet().reserve(&orphan), None);
}

#[test]
fn transfer_with_transact_checks_size_first() {
    let p = pallet();
    let call = vec![0u8; 300];
    assert_eq!(
        err(p.transfer_with_transact(&alice(), SIBLING_CURRENCY, 0, 3000, 1, call, 5)),
        Error::TransactTooLarge
    );
    let mut cfg = config(None);
    cfg.max_transact_size = 300;
    let p = Pallet::new(cfg);
    assert_eq!(
        err(p.transfer_with_transact(&alice(), SIBLING_CURRENCY, 0, 3000, 1, vec![1], 5)),
        Error::TransactTooLarge
    );
    let p = pallet();
    assert_eq!(err(p.transfer_with_transact(&alice(), SIBLING_CURRENCY, 0, 3000, 1, vec![1], 5)), Error::ZeroAmount);
}

#[test]
fn distinct_reserves_win_over_a_missing_one() {
    let mut cfg = config(Some(3_000));
    cfg.max_assets_for_transfer = 4;
    let p = Pallet::new(cfg);
    let mut assets = AssetBundle::single(fungible(l(0, vec![Junction::GeneralIndex(1)]), 10));
    assets.push(fungible(sibling_token(), 10));
    assets.push(fungible(native_id(), 10));
    assets.push(fungible(hub(), 10));
    // the asset of no reserve sorts first; the hub asset after it pays the fee
    assert_eq!(*assets.get(0).unwrap(), fungible(l(0, vec![Junction::GeneralIndex(1)]), 10));
    assert_eq!(*assets.get(1).unwrap(), fungible(hub(), 10));
    let r = p.transfer_multiassets(&alice(), assets, 1, dest_at(3000), 1);
    assert_eq!(err(r), Error::DistinctReserveForAssetAndFee);
}

#[test]
fn blocked_account_only() {
    let mut cfg = config(Some(3_000));
    cfg.blocked_destinations = vec![dest_at(3000)];
    let p = Pallet::new(cfg);
    assert_eq!(
        err(p.transfer(&alice(), NATIVE_CURRENCY, 5, dest_at(3000), 1)),
        Error::NotSupportedMultiLocation
    );
    let other = l(1, vec![Junction::Parachain(3000), Junction::AccountIndex64(43)]);
    assert!(p.transfer(&alice(), NATIVE_CURRENCY, 5, other, 1).is_ok());
    assert!(!p.locations_allowed(&l(1, vec![Junction::Parachain(3000), Junction::AccountIndex64(42), Junction::GeneralIndex(1)])));
    assert!(p.locations_allowed(&Location::sibling(3000)));
}
