use xtokens::asset::{Asset, AssetBundle, Fungibility};
use xtokens::location::{Junction, Location};
use xtokens::pallet::{charged_weight, Config, Pallet};
use xtokens::program::Instruction;

fn l(parents: u8, interior: Vec<Junction>) -> Location {
    Location::new(parents, interior)
}

fn fungible(id: Location, amount: u128) -> Asset {
    Asset::new_fungible(id, amount)
}

fn pallet() -> Pallet {
    Pallet::new(Config {
        self_location: Location::sibling(2000),
        ancestry: l(0, vec![Junction::Parachain(2000)]),
        max_assets_for_transfer: 4,
        max_transact_size: 256,
        currencies: vec![(0, l(1, vec![Junction::Parachain(2000), Junction::GeneralIndex(1)])), (1, Location::parent())],
        min_xcm_fees: vec![],
        blocked_destinations: vec![],
        relative_self_reserve: false,
    })
}

#[test]
fn chain_and_non_chain_parts() {
    let x = l(1, vec![Junction::Parachain(3000), Junction::AccountIndex64(1)]);
    assert_eq!(x.chain_part(), Some(Location::sibling(3000)));
    assert_eq!(x.non_chain_part(), Some(l(0, vec![Junction::AccountIndex64(1)])));
    let relay_account = l(1, vec![Junction::AccountIndex64(1)]);
    assert_eq!(relay_account.chain_part(), Some(Location::parent()));
    let child = l(0, vec![Junction::Parachain(5), Junction::Parachain(6), Junction::GeneralIndex(2)]);
    assert_eq!(child.chain_part(), Some(l(0, vec![Junction::Parachain(5)])));
    assert_eq!(child.non_chain_part(), Some(l(0, vec![Junction::GeneralIndex(2)])));
    assert_eq!(l(2, vec![]).chain_part(), None);
    assert_eq!(Location::sibling(9).non_chain_part(), None);
}

#[test]
fn append_respects_the_junction_limit() {
    let mut x = Location::sibling(1);
    assert!(x.append_with(&vec![Junction::AccountIndex64(3)]));
    assert_eq!(x, l(1, vec![Junction::Parachain(1), Junction::AccountIndex64(3)]));
    let long = vec![Junction::OnlyChild; 7];
    assert!(!x.append_with(&long));
    assert_eq!(x, l(1, vec![Junction::Parachain(1), Junction::AccountIndex64(3)]));
}

#[test]
fn reanchor_to_sibling() {
    let ancestry = l(0, vec![Junction::Parachain(2000)]);
    let here_token = l(0, vec![Junction::GeneralIndex(1)]);
    let seen = here_token.reanchored(&Location::sibling(3000), &ancestry).unwrap();
    assert_eq!(seen, l(1, vec![Junction::Parachain(2000), Junction::GeneralIndex(1)]));
    let their_token = l(1, vec![Junction::Parachain(3000), Junction::GeneralIndex(5)]);
    let seen = their_token.reanchored(&Location::sibling(3000), &ancestry).unwrap();
    assert_eq!(seen, l(0, vec![Junction::GeneralIndex(5)]));
    let relay_token = Location::parent();
    assert_eq!(relay_token.reanchored(&Location::parent(), &ancestry).unwrap(), Location::here());
}

#[test]
fn reanchor_round_trip() {
    let own = l(0, vec![Junction::Parachain(2000)]);
    let other = l(0, vec![Junction::Parachain(3000)]);
    for x in [
        l(0, vec![Junction::GeneralIndex(1)]),
        l(1, vec![Junction::Parachain(3000), Junction::GeneralIndex(5)]),
        l(1, vec![Junction::Parachain(4000)]),
        Location::parent(),
        l(2, vec![Junction::AccountIndex64(8)]),
    ] {
        let there = x.reanchored(&Location::sibling(3000), &own).unwrap();
        let back = there.reanchored(&Location::sibling(2000), &other).unwrap();
        assert_eq!(back, x);
    }
}

#[test]
fn reanchor_fails_on_too_many_junctions() {
    let own = l(0, vec![Junction::Parachain(2000)]);
    let x = l(0, vec![Junction::GeneralIndex(0); 8]);
    assert_eq!(x.reanchored(&Location::sibling(3000), &own), None);
}

#[test]
fn bundle_sorts_and_merges() {
    let a = l(1, vec![Junction::Parachain(3000), Junction::GeneralIndex(5)]);
    let mut b = AssetBundle::single(fungible(a.clone(), 5));
    b.push(fungible(Location::parent(), 9));
    b.push(fungible(a.clone(), 7));
    assert_eq!(b.len(), 2);
    assert_eq!(*b.get(0).unwrap(), fungible(Location::parent(), 9));
    assert_eq!(*b.get(1).unwrap(), fungible(a.clone(), 12));
    b.push(Asset { id: a.clone(), fun: Fungibility::NonFungible(1) });
    assert_eq!(b.len(), 3);
    assert_eq!(b.get(2).unwrap().fun, Fungibility::NonFungible(1));
    assert!(b.get(3).is_none());
}

#[test]
fn bundle_merge_saturates() {
    let mut b = AssetBundle::single(fungible(Location::parent(), u128::MAX - 1));
    b.push(fungible(Location::parent(), 10));
    assert_eq!(*b.get(0).unwrap(), fungible(Location::parent(), u128::MAX));
}

#[test]
fn bundle_replacement() {
    let a = l(1, vec![Junction::Parachain(3000), Junction::GeneralIndex(5)]);
    let mut b = AssetBundle::single(fungible(a.clone(), 5));
    b.push(fungible(Location::parent(), 9));
    let r = b.with_replaced(&fungible(Location::parent(), 9), 3);
    assert_eq!(*r.get(0).unwrap(), fungible(Location::parent(), 3));
    assert_eq!(*r.get(1).unwrap(), fungible(a, 5));
}

#[test]
fn half_and_subtract() {
    let x = fungible(Location::parent(), 11);
    assert_eq!(x.half(), fungible(Location::parent(), 5));
    assert_eq!(x.subtract_fee(4), fungible(Location::parent(), 7));
    assert_eq!(Asset { id: Location::parent(), fun: Fungibility::NonFungible(4) }.amount(), 0);
}

#[test]
fn reserve_is_the_named_chain() {
    let x = fungible(l(1, vec![Junction::Parachain(3000), Junction::GeneralIndex(5)]), 1);
    assert_eq!(pallet().reserve(&x), Some(Location::sibling(3000)));
    assert_eq!(pallet().reserve(&fungible(l(0, vec![Junction::GeneralIndex(5)]), 1)), None);
}

#[test]
fn charged_weights() {
    assert_eq!(charged_weight(100, Some(50)), 150);
    assert_eq!(charged_weight(100, None), u64::MAX);
    assert_eq!(charged_weight(u64::MAX - 1, Some(5)), u64::MAX);
}

#[test]
fn weight_probes() {
    let p = pallet();
    let dest = l(1, vec![Junction::Parachain(3000), Junction::AccountIndex64(1)]);
    match p.weight_probe_of_transfer(0, 10, &dest).unwrap().as_slice() {
        [Instruction::TransferReserveAsset { assets, dest: d, xcm }] => {
            assert_eq!(assets.len(), 0);
            assert_eq!(*d, Location::sibling(3000));
            assert!(xcm.is_empty());
        }
        other => panic!("{:?}", other),
    }
    match p.weight_probe_of_transfer(1, 10, &dest).unwrap().as_slice() {
        [Instruction::WithdrawAsset(b), Instruction::InitiateReserveWithdraw { reserve, xcm }] => {
            assert_eq!(b.len(), 1);
            assert_eq!(*reserve, Location::sibling(3000));
            assert!(xcm.is_empty());
        }
        other => panic!("{:?}", other),
    }
    assert!(p.weight_probe_of_transfer(7, 10, &dest).is_none());
    assert!(p.weight_probe_of_transfer(0, 10, &Location::sibling(3000)).is_none());
    assert!(p.weight_probe_of_transfer_multicurrencies(&vec![(0, 1), (7, 1)], 0, &dest).is_none());
    let probe = p.weight_probe_of_transfer_multicurrencies(&vec![(0, 1), (1, 1)], 0, &dest).unwrap();
    match probe.as_slice() {
        [Instruction::TransferReserveAsset { assets, .. }] => assert_eq!(assets.len(), 2),
        other => panic!("{:?}", other),
    }
    let (transfer, transact) = p.weight_probe_of_transfer_with_transact(0, 10, 3000).unwrap();
    assert!(transfer.is_none());
    assert!(transact.is_empty());
    assert!(Pallet::weight_probe_of_send_transact().is_empty());
}

#[test]
fn weighing_reserve_skips_the_fee() {
    let mut b = AssetBundle::single(fungible(Location::parent(), 1));
    b.push(fungible(l(1, vec![Junction::Parachain(3000), Junction::GeneralIndex(5)]), 1));
    assert_eq!(pallet().get_reserve_location(&b, 0), Some(Location::sibling(3000)));
    assert_eq!(pallet().get_reserve_location(&b, 1), Some(Location::parent()));
}

#[test]
fn currency_and_fee_lookups() {
    let p = pallet();
    assert_eq!(p.convert_currency(1), Some(Location::parent()));
    assert_eq!(p.convert_currency(5), None);
    assert_eq!(p.get_min_xcm_fee(&Location::parent()), None);
    assert!(p.locations_allowed(&Location::sibling(3)));
}

#[test]
fn reanchor_round_trip_via_parent() {
    let own = l(0, vec![Junction::Parachain(2000)]);
    let seen_from_parent = l(0, vec![Junction::Parachain(2000)]);
    for x in [
        l(0, vec![Junction::GeneralIndex(1)]),
        l(1, vec![Junction::Parachain(3000), Junction::GeneralIndex(5)]),
        Location::parent(),
        l(2, vec![Junction::AccountIndex64(8)]),
    ] {
        let there = x.reanchored(&Location::parent(), &own).unwrap();
        let back = there.reanchored(&seen_from_parent, &Location::here()).unwrap();
        assert_eq!(back, x);
    }
}
