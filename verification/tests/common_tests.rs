use std::collections::HashMap;

use avago::common::{
    merge_royalties, Assets, AssetsAccumulator, FungibleHolding, NonFungibleHolding,
    RequiredResources, RoyalityData,
};
use avago::amount::Amount;
use avago::error::SwapError;

fn amt(x: i128) -> Amount {
    Amount::from_attos(x)
}

const XRD: u64 = 1;
const GOLD: u64 = 2;
const CATS: u64 = 10;
const DOGS: u64 = 11;

fn ft(resource: u64, amount: i128) -> FungibleHolding {
    FungibleHolding { resource, divisibility: 18, amount: amt(amount) }
}

fn nft(resource: u64, ids: &[u64]) -> NonFungibleHolding {
    NonFungibleHolding { resource, ids: ids.to_vec() }
}

fn request(fts: &[(u64, i128)], nfts: &[(u64, &[u64])]) -> RequiredResources {
    let mut f = HashMap::new();
    for (k, v) in fts {
        f.insert(*k, amt(*v));
    }
    let mut n = HashMap::new();
    for (k, v) in nfts {
        n.insert(*k, v.to_vec());
    }
    RequiredResources {
        fungible_token_rs: if fts.is_empty() { None } else { Some(f) },
        non_fungible_token_rs: if nfts.is_empty() { None } else { Some(n) },
    }
}

#[test]
fn take_needed_assets_takes_what_is_asked() {
    let mut req = request(&[(XRD, 100), (GOLD, 5)], &[(CATS, &[1, 3])]);
    let mut given = Assets {
        fungible_buckets: Some(vec![ft(GOLD, 7), ft(XRD, 150)]),
        non_fungible_buckets: Some(vec![nft(CATS, &[1, 2, 3, 4])]),
    };
    let taken = req.take_needed_assets(&mut given).unwrap();
    assert_eq!(taken.fungible_buckets.unwrap(), vec![ft(GOLD, 5), ft(XRD, 100)]);
    let took = taken.non_fungible_buckets.unwrap();
    assert_eq!(took.len(), 1);
    assert_eq!(took[0].resource, CATS);
    assert_eq!(took[0].ids, vec![1, 3]);
    assert_eq!(given.fungible_buckets.unwrap(), vec![ft(GOLD, 2), ft(XRD, 50)]);
    let left = given.non_fungible_buckets.unwrap();
    assert_eq!(left[0].ids, vec![2, 4]);
    assert!(req.fungible_token_rs.unwrap().is_empty());
    assert!(req.non_fungible_token_rs.unwrap().is_empty());
}

#[test]
fn take_needed_assets_leaves_unrequested_kind_alone() {
    let mut req = request(&[(XRD, 10)], &[]);
    let mut given = Assets {
        fungible_buckets: Some(vec![ft(XRD, 10)]),
        non_fungible_buckets: Some(vec![nft(CATS, &[9])]),
    };
    let taken = req.take_needed_assets(&mut given).unwrap();
    assert!(taken.non_fungible_buckets.is_none());
    assert_eq!(taken.fungible_buckets.unwrap(), vec![ft(XRD, 10)]);
    assert_eq!(given.fungible_buckets.unwrap(), vec![ft(XRD, 0)]);
    assert_eq!(given.non_fungible_buckets.unwrap()[0].ids, vec![9]);
}

fn refusal_of(req: &[(u64, i128)], nreq: &[(u64, &[u64])], given: Assets) -> SwapError {
    let mut r = request(req, nreq);
    let before_ft = r.fungible_token_rs.clone();
    let mut g = given;
    let before_given = format!("{:?}", g);
    let e = r.take_needed_assets(&mut g).unwrap_err();
    assert_eq!(r.fungible_token_rs, before_ft);
    assert_eq!(format!("{:?}", g), before_given);
    e
}

#[test]
fn take_needed_assets_refusals() {
    assert_eq!(
        refusal_of(&[], &[(CATS, &[1])], Assets { fungible_buckets: None, non_fungible_buckets: None }),
        SwapError::RequiredNftAssets
    );
    assert_eq!(
        refusal_of(&[(XRD, 1)], &[], Assets { fungible_buckets: None, non_fungible_buckets: None }),
        SwapError::RequiredFtAssets
    );
    assert_eq!(
        refusal_of(
            &[],
            &[(CATS, &[1])],
            Assets { fungible_buckets: None, non_fungible_buckets: Some(vec![nft(DOGS, &[1])]) }
        ),
        SwapError::NftNotMatch
    );
    assert_eq!(
        refusal_of(
            &[],
            &[(CATS, &[1])],
            Assets {
                fungible_buckets: None,
                non_fungible_buckets: Some(vec![nft(CATS, &[1]), nft(CATS, &[2])])
            }
        ),
        SwapError::NftNotMatch
    );
    assert_eq!(
        refusal_of(
            &[],
            &[(CATS, &[1, 5])],
            Assets { fungible_buckets: None, non_fungible_buckets: Some(vec![nft(CATS, &[1, 2])]) }
        ),
        SwapError::BucketShort
    );
    assert_eq!(
        refusal_of(
            &[(XRD, 100)],
            &[],
            Assets { fungible_buckets: Some(vec![ft(XRD, 99)]), non_fungible_buckets: None }
        ),
        SwapError::BucketShort
    );
    assert_eq!(
        refusal_of(
            &[(XRD, -1)],
            &[],
            Assets { fungible_buckets: Some(vec![ft(XRD, 99)]), non_fungible_buckets: None }
        ),
        SwapError::BucketShort
    );
    assert_eq!(
        refusal_of(
            &[(XRD, 100)],
            &[],
            Assets { fungible_buckets: Some(vec![ft(GOLD, 100)]), non_fungible_buckets: None }
        ),
        SwapError::FtNotMatch
    );
    assert_eq!(
        refusal_of(
            &[],
            &[(CATS, &[1]), (DOGS, &[2])],
            Assets { fungible_buckets: None, non_fungible_buckets: Some(vec![nft(CATS, &[1])]) }
        ),
        SwapError::NftNotSufficient
    );
    assert_eq!(
        refusal_of(
            &[(XRD, 1), (GOLD, 1)],
            &[],
            Assets { fungible_buckets: Some(vec![ft(XRD, 1)]), non_fungible_buckets: None }
        ),
        SwapError::FtNotSufficient
    );
}

#[test]
fn take_needed_assets_checks_nfts_before_fts() {
    // Both kinds are wrong: the non-fungible refusal comes first.
    assert_eq!(
        refusal_of(
            &[(XRD, 100)],
            &[(CATS, &[1])],
            Assets {
                fungible_buckets: Some(vec![ft(GOLD, 1)]),
                non_fungible_buckets: Some(vec![nft(DOGS, &[1])])
            }
        ),
        SwapError::NftNotMatch
    );
    // A missing fungible request is reported before an unmet non-fungible one.
    assert_eq!(
        refusal_of(
            &[(XRD, 100)],
            &[(CATS, &[1]), (DOGS, &[1])],
            Assets {
                fungible_buckets: Some(vec![ft(GOLD, 1)]),
                non_fungible_buckets: Some(vec![nft(DOGS, &[1])])
            }
        ),
        SwapError::FtNotMatch
    );
}

#[test]
fn accumulator_gives_back_what_it_got_once() {
    let mut acc = AssetsAccumulator::new(Assets {
        fungible_buckets: Some(vec![ft(XRD, 42)]),
        non_fungible_buckets: Some(vec![nft(CATS, &[7, 8])]),
    });
    let out = acc.take();
    assert_eq!(out.fungible_buckets.unwrap(), vec![ft(XRD, 42)]);
    assert_eq!(out.non_fungible_buckets.unwrap()[0].ids, vec![7, 8]);
    let again = acc.take();
    assert_eq!(again.fungible_buckets.unwrap(), vec![ft(XRD, 0)]);
    let n = again.non_fungible_buckets.unwrap();
    assert_eq!(n[0].resource, CATS);
    assert!(n[0].ids.is_empty());
}

#[test]
fn accumulator_keeps_missing_kinds_missing() {
    let mut acc = AssetsAccumulator::new(Assets { fungible_buckets: None, non_fungible_buckets: None });
    let out = acc.take();
    assert!(out.fungible_buckets.is_none());
    assert!(out.non_fungible_buckets.is_none());
}

#[test]
fn royalties_merge() {
    let own = RoyalityData { addresses: vec![1, 2], amount: amt(5) };
    let taken = RoyalityData { addresses: vec![3], amount: amt(9) };
    let m = merge_royalties(Some(own), Some(taken)).unwrap();
    assert_eq!(m.addresses, vec![1, 2, 3]);
    assert_eq!(m.amount, amt(5));
    let only = merge_royalties(None, Some(RoyalityData { addresses: vec![4], amount: amt(1) })).unwrap();
    assert_eq!(only.addresses, vec![4]);
    assert!(merge_royalties(None, None).is_none());
    let kept = merge_royalties(Some(RoyalityData { addresses: vec![], amount: amt(2) }), None).unwrap();
    assert_eq!(kept.amount, amt(2));
    let service = RoyalityData::service(amt(20));
    assert!(service.addresses.is_empty());
    assert_eq!(service.amount, amt(20));
    let copy = RoyalityData { addresses: vec![6], amount: amt(3) }.duplicate();
    assert_eq!(copy.addresses, vec![6]);
    assert_eq!(copy.amount, amt(3));
}

#[test]
fn amounts_carry_across_128_bits() {
    let top = Amount { hi: 0, lo: u128::MAX };
    let one = Amount::from_attos(1);
    assert_eq!(top.checked_add(&one), Some(Amount { hi: 1, lo: 0 }));
    assert_eq!(Amount { hi: 1, lo: 0 }.checked_sub(&one), Some(top));
    assert_eq!(Amount::from_attos(-1), Amount { hi: -1, lo: u128::MAX });
    assert_eq!(Amount::from_attos(-1).checked_add(&one), Some(Amount::zero()));
    assert!(Amount::from_attos(-1).is_negative());
    assert!(Amount::from_attos(-2).less_than(&Amount::from_attos(-1)));
    assert!(top.less_than(&Amount { hi: 1, lo: 0 }));
    let max = Amount { hi: i64::MAX, lo: u128::MAX };
    assert_eq!(max.checked_add(&one), None);
    let min = Amount { hi: i64::MIN, lo: 0 };
    assert_eq!(min.checked_sub(&one), None);
}

#[test]
fn take_needed_assets_respects_divisibility() {
    // GOLD is divided into hundredths: 10^16 attos is its smallest unit.
    let gold = |amount: i128| FungibleHolding { resource: GOLD, divisibility: 2, amount: amt(amount) };
    let unit: i128 = 10_000_000_000_000_000;
    let mut fine = request(&[(GOLD, unit + 1)], &[]);
    let mut given = Assets { fungible_buckets: Some(vec![gold(5 * unit)]), non_fungible_buckets: None };
    assert_eq!(fine.take_needed_assets(&mut given).unwrap_err(), SwapError::BucketShort);
    assert_eq!(given.fungible_buckets.as_ref().unwrap()[0], gold(5 * unit));
    let mut whole = request(&[(GOLD, 3 * unit)], &[]);
    let taken = whole.take_needed_assets(&mut given).unwrap();
    assert_eq!(taken.fungible_buckets.unwrap(), vec![gold(3 * unit)]);
    assert_eq!(given.fungible_buckets.unwrap(), vec![gold(2 * unit)]);
}

#[test]
fn amounts_fit_divisibility() {
    let unit: i128 = 10_000_000_000_000_000;
    assert!(Amount::from_attos(3 * unit).fits(2));
    assert!(!Amount::from_attos(3 * unit + 1).fits(2));
    assert!(Amount::from_attos(7).fits(18));
    assert!(!Amount::from_attos(-unit).fits(2));
    assert!(!Amount::from_attos(unit).fits(19));
    assert!(Amount::from_attos(1_000_000_000_000_000_000).fits(0));
    assert!(!Amount::from_attos(1_000_000_000_000_000_001).fits(0));
    // 2^128 attos is a multiple of 2^18 but not of 10^18.
    assert!(!Amount { hi: 1, lo: 0 }.fits(0));
    assert!(Amount { hi: 1, lo: 0 }.fits(18));
}
