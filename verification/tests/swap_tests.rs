use std::collections::HashMap;

use avago::common::{
    Args, ArgsSimpleSwap, Assets, FungibleHolding, GlobalId, NonFungibleHolding,
    RequiredResources, RoyalityData,
};
use avago::amount::Amount;
use avago::error::SwapError;

fn amt(x: i128) -> Amount {
    Amount::from_attos(x)
}
use avago::swap_basic::AvagoSwapBasic;
use avago::swap_bid::{Args as BidArgs, AvagoSwapBid, HighestBidder};
use avago::swap_offer::{Args as OfferArgs, Args2, AvagoSwapOffer};
use avago::swap_p2p::{ArgsP2P, AvagoSwapP2P};
use avago::swap_simple::AvagoSwapSimple;

const XRD: u64 = 1;
const CATS: u64 = 10;
const BADGES: u64 = 99;

fn ft(resource: u64, amount: i128) -> FungibleHolding {
    FungibleHolding { resource, divisibility: 18, amount: amt(amount) }
}

fn nft(resource: u64, ids: &[u64]) -> NonFungibleHolding {
    NonFungibleHolding { resource, ids: ids.to_vec() }
}

fn badge(n: u64) -> GlobalId {
    GlobalId { resource: BADGES, local_id: n }
}

fn cats(ids: &[u64]) -> Assets {
    Assets { fungible_buckets: None, non_fungible_buckets: Some(vec![nft(CATS, ids)]) }
}

fn xrd(amount: i128) -> Assets {
    Assets { fungible_buckets: Some(vec![ft(XRD, amount)]), non_fungible_buckets: None }
}

fn ask_xrd(amount: i128) -> RequiredResources {
    let mut m = HashMap::new();
    m.insert(XRD, amt(amount));
    RequiredResources { fungible_token_rs: Some(m), non_fungible_token_rs: None }
}

#[test]
fn basic_swap_sells_once_and_pays_owner_once() {
    let mut s = AvagoSwapBasic::instantiate(
        amt(20),
        badge(1),
        7,
        Args { offered_resource: cats(&[5]), requested_resource: ask_xrd(100) },
        Some(RoyalityData { addresses: vec![44], amount: amt(3) }),
    );
    // Not sold yet: the owner cannot withdraw.
    assert_eq!(s.withdraw_assets(badge(1)).unwrap_err(), SwapError::NotSoldYet);
    // Too little payment.
    assert_eq!(s.exchange(badge(2), xrd(99), None).unwrap_err(), SwapError::BucketShort);
    assert!(!s.status.is_sold);
    let (out, roy) = s
        .exchange(badge(2), xrd(120), Some(RoyalityData { addresses: vec![45], amount: amt(1) }))
        .unwrap();
    let out = out.unwrap();
    assert_eq!(out.len(), 2);
    assert_eq!(out[0].non_fungible_buckets.as_ref().unwrap()[0].ids, vec![5]);
    assert_eq!(out[1].fungible_buckets.as_ref().unwrap()[0], ft(XRD, 20));
    let roy = roy.unwrap();
    assert_eq!(roy.addresses, vec![44, 45]);
    assert_eq!(roy.amount, amt(3));
    assert!(s.status.is_sold);
    assert_eq!(s.taker, Some(badge(2)));
    // Sold: a second buyer and a cancel are refused.
    assert_eq!(s.exchange(badge(3), xrd(200), None).unwrap_err(), SwapError::BoughtByOther);
    assert_eq!(s.cancel_escrow(badge(1)).unwrap_err(), SwapError::NotSoldYet);
    // Only the owner withdraws, once.
    assert_eq!(s.withdraw_assets(badge(2)).unwrap_err(), SwapError::NotOwnerWithdraw);
    let (paid, service) = s.withdraw_assets(badge(1)).unwrap();
    assert_eq!(paid.unwrap()[0].fungible_buckets.as_ref().unwrap()[0], ft(XRD, 100));
    let service = service.unwrap();
    assert!(service.addresses.is_empty());
    assert_eq!(service.amount, amt(20));
    assert_eq!(s.withdraw_assets(badge(1)).unwrap_err(), SwapError::WithdrawnByOwner);
}

#[test]
fn basic_swap_cancel() {
    let mut s = AvagoSwapBasic::instantiate(
        amt(20),
        badge(1),
        7,
        Args { offered_resource: cats(&[5, 6]), requested_resource: ask_xrd(100) },
        None,
    );
    assert_eq!(s.cancel_escrow(badge(2)).unwrap_err(), SwapError::NotOwnerCancel);
    let back = s.cancel_escrow(badge(1)).unwrap().unwrap();
    assert_eq!(back[0].non_fungible_buckets.as_ref().unwrap()[0].ids, vec![5, 6]);
    assert_eq!(s.cancel_escrow(badge(1)).unwrap_err(), SwapError::Cancelled);
    assert_eq!(s.exchange(badge(2), xrd(100), None).unwrap_err(), SwapError::Cancelled);
}

#[test]
fn p2p_swap_only_for_named_taker() {
    let mut s = AvagoSwapP2P::instantiate(
        1,
        3,
        ArgsP2P { offered_resource: cats(&[8]), requested_resource: ask_xrd(50), taker: 2 },
    );
    assert_eq!(s.exchange(4, xrd(50)).unwrap_err(), SwapError::NoAccess);
    let out = s.exchange(2, xrd(50)).unwrap().unwrap();
    assert_eq!(out[0].non_fungible_buckets.as_ref().unwrap()[0].ids, vec![8]);
    assert_eq!(out[1].fungible_buckets.as_ref().unwrap()[0], ft(XRD, 0));
    assert_eq!(s.exchange(2, xrd(50)).unwrap_err(), SwapError::BoughtByOther);
    assert_eq!(s.withdraw_assets(2).unwrap_err(), SwapError::NotOwnerWithdraw);
    let paid = s.withdraw_assets(1).unwrap().unwrap();
    assert_eq!(paid[0].fungible_buckets.as_ref().unwrap()[0], ft(XRD, 50));
    assert_eq!(s.withdraw_assets(1).unwrap_err(), SwapError::WithdrawnByOwner);
    assert_eq!(s.cancel_escrow(1).unwrap_err(), SwapError::NotSoldYet);
}

#[test]
fn p2p_cancel_then_no_sale() {
    let mut s = AvagoSwapP2P::instantiate(
        1,
        3,
        ArgsP2P { offered_resource: cats(&[8]), requested_resource: ask_xrd(50), taker: 2 },
    );
    let back = s.cancel_escrow(1).unwrap().unwrap();
    assert_eq!(back[0].non_fungible_buckets.as_ref().unwrap()[0].ids, vec![8]);
    assert_eq!(s.exchange(2, xrd(50)).unwrap_err(), SwapError::Cancelled);
    assert_eq!(s.withdraw_assets(1).unwrap_err(), SwapError::NotSoldYet);
}

fn simple(price: i128) -> AvagoSwapSimple {
    AvagoSwapSimple::instantiate(
        amt(20),
        1,
        4,
        ArgsSimpleSwap { asset: nft(CATS, &[77]), price: amt(price) },
        Some(RoyalityData { addresses: vec![9], amount: amt(2) }),
        XRD,
    )
}

#[test]
fn simple_swap_sells_for_price_and_returns_change() {
    let mut s = simple(100);
    let (out, roy) = s.exchange(2, xrd(130)).unwrap();
    let out = out.unwrap();
    assert_eq!(out[0].non_fungible_buckets.as_ref().unwrap()[0].ids, vec![77]);
    assert_eq!(out[0].fungible_buckets.as_ref().unwrap()[0], ft(XRD, 30));
    assert_eq!(roy.unwrap().addresses, vec![9]);
    assert_eq!(s.xrd_vault, ft(XRD, 100));
    assert_eq!(s.taker, Some(2));
    assert_eq!(s.exchange(3, xrd(130)).unwrap_err(), SwapError::BoughtByOther);
    assert_eq!(s.cancel_escrow(1).unwrap_err(), SwapError::NotSoldYet);
    let (paid, service) = s.withdraw_assets(1).unwrap();
    assert_eq!(paid.unwrap()[0].fungible_buckets.as_ref().unwrap()[0], ft(XRD, 100));
    assert_eq!(service.unwrap().amount, amt(20));
    assert_eq!(s.xrd_vault, ft(XRD, 0));
    assert_eq!(s.withdraw_assets(1).unwrap_err(), SwapError::WithdrawnByOwner);
}

#[test]
fn simple_swap_refusals() {
    let mut s = simple(100);
    // The payment must exceed the price.
    assert_eq!(s.exchange(2, xrd(100)).unwrap_err(), SwapError::PaymentTooLow);
    assert_eq!(
        s.exchange(2, Assets { fungible_buckets: Some(vec![ft(5, 500)]), non_fungible_buckets: None })
            .unwrap_err(),
        SwapError::WrongPaymentResource
    );
    assert_eq!(
        s.exchange(2, Assets { fungible_buckets: None, non_fungible_buckets: None }).unwrap_err(),
        SwapError::PaymentMissing
    );
    assert_eq!(
        s.exchange(2, Assets { fungible_buckets: Some(vec![]), non_fungible_buckets: None })
            .unwrap_err(),
        SwapError::PaymentMissing
    );
    assert!(!s.status.is_sold);
    assert_eq!(s.withdraw_assets(2).unwrap_err(), SwapError::NotOwnerWithdraw);
    let back = s.cancel_escrow(1).unwrap().unwrap();
    assert_eq!(back[0].non_fungible_buckets.as_ref().unwrap()[0].ids, vec![77]);
    assert!(back[0].fungible_buckets.is_none());
    assert_eq!(s.exchange(2, xrd(500)).unwrap_err(), SwapError::Cancelled);
}

fn auction() -> AvagoSwapBid {
    AvagoSwapBid::instantiate(
        amt(20),
        badge(1),
        5,
        BidArgs { offered_resource: cats(&[3]) },
        Some(RoyalityData { addresses: vec![12], amount: amt(4) }),
        XRD,
    )
}

#[test]
fn bids_must_rise() {
    let mut s = auction();
    assert!(s.bid(badge(2), ft(XRD, 10)).unwrap().is_none());
    assert_eq!(s.bid(badge(3), ft(XRD, 10)).unwrap_err(), SwapError::BidTooLow);
    assert!(s.bid(badge(3), ft(XRD, 11)).unwrap().is_none());
    assert_eq!(
        s.highest_bid,
        Some(HighestBidder { non_fungible_global_id: badge(3), amount: amt(11) })
    );
    assert_eq!(s.bids_vault, ft(XRD, 21));
    assert_eq!(s.bid(badge(4), ft(7, 50)).unwrap_err(), SwapError::ResourceMismatch);
}

#[test]
fn auction_accept_and_withdraw() {
    let mut s = auction();
    assert_eq!(s.exchange(badge(1)).unwrap_err(), SwapError::NoBidYet);
    s.bid(badge(2), ft(XRD, 10)).unwrap();
    assert_eq!(s.exchange(badge(2)).unwrap_err(), SwapError::NotSwapOwner);
    let (paid, service) = s.exchange(badge(1)).unwrap();
    assert_eq!(paid.unwrap()[0].fungible_buckets.as_ref().unwrap()[0], ft(XRD, 10));
    assert_eq!(service.unwrap().amount, amt(20));
    assert_eq!(s.bids_vault, ft(XRD, 0));
    assert_eq!(s.bid(badge(3), ft(XRD, 50)).unwrap_err(), SwapError::BoughtByOther);
    assert_eq!(s.cancel_escrow(badge(1)).unwrap_err(), SwapError::SoldByOther);
    assert_eq!(s.withdraw_assets(badge(3)).unwrap_err(), SwapError::NotBidWinner);
    let (got, roy) = s.withdraw_assets(badge(2)).unwrap();
    assert_eq!(got.unwrap()[0].non_fungible_buckets.as_ref().unwrap()[0].ids, vec![3]);
    assert_eq!(roy.unwrap().addresses, vec![12]);
    assert_eq!(s.withdraw_assets(badge(2)).unwrap_err(), SwapError::WithdrawnByOwner);
}

#[test]
fn outbid_bidder_has_no_recorded_bid() {
    let mut s = auction();
    assert_eq!(s.cancel_bid(badge(2)).unwrap_err(), SwapError::NoBidYet);
    s.bid(badge(2), ft(XRD, 10)).unwrap();
    s.bid(badge(3), ft(XRD, 20)).unwrap();
    assert_eq!(s.cancel_bid(badge(3)).unwrap_err(), SwapError::HighestBidderCannotWithdraw);
    // Bids are never recorded per bidder, so an outbid bidder cannot take its bid back.
    assert_eq!(s.cancel_bid(badge(2)).unwrap_err(), SwapError::NotBidder);
    assert!(s.bidder.is_empty());
}

#[test]
fn recorded_bid_is_refunded() {
    let mut s = auction();
    s.bid(badge(3), ft(XRD, 20)).unwrap();
    // A record of 5 kept in the vault beside the highest bid.
    s.bidder.push(HighestBidder { non_fungible_global_id: badge(2), amount: amt(5) });
    s.bids_vault.amount = amt(25);
    let back = s.cancel_bid(badge(2)).unwrap().unwrap();
    assert_eq!(back[0].fungible_buckets.as_ref().unwrap()[0], ft(XRD, 5));
    assert_eq!(s.bids_vault, ft(XRD, 20));
    assert!(s.bidder.is_empty());
}

#[test]
fn auction_cancel() {
    let mut s = auction();
    assert_eq!(s.cancel_escrow(badge(2)).unwrap_err(), SwapError::NotSwapOwner);
    let back = s.cancel_escrow(badge(1)).unwrap().unwrap();
    assert_eq!(back[0].non_fungible_buckets.as_ref().unwrap()[0].ids, vec![3]);
    assert_eq!(s.bid(badge(2), ft(XRD, 1)).unwrap_err(), SwapError::Cancelled);
    assert_eq!(s.cancel_escrow(badge(1)).unwrap_err(), SwapError::Cancelled);
}

#[test]
fn offers_and_selection() {
    let mut s = AvagoSwapOffer::instantiate(1, 6, OfferArgs { offered_resource: cats(&[2]) });
    assert_eq!(s.cancel_offer(3).unwrap_err(), SwapError::NoOfferSelected);
    assert!(s.offer(3, xrd(40)).unwrap().is_none());
    assert!(s.offer(4, xrd(60)).unwrap().is_none());
    assert_eq!(
        s.exchange(1, Args2 { selected: badge(5) }).unwrap_err(),
        SwapError::SelectedOfferMissing
    );
    assert!(!s.status.is_sold);
    assert_eq!(s.exchange(2, Args2 { selected: badge(4) }).unwrap_err(), SwapError::NotSwapOwner);
    let got = s.exchange(1, Args2 { selected: badge(4) }).unwrap().unwrap();
    assert_eq!(got[0].fungible_buckets.as_ref().unwrap()[0], ft(XRD, 60));
    assert_eq!(s.selected, Some(4));
    assert_eq!(s.offer(5, xrd(1)).unwrap_err(), SwapError::BoughtByOther);
    assert_eq!(s.cancel_offer(4).unwrap_err(), SwapError::OfferSelected);
    let back = s.cancel_offer(3).unwrap().unwrap();
    assert_eq!(back[0].fungible_buckets.as_ref().unwrap()[0], ft(XRD, 40));
    assert_eq!(s.cancel_offer(3).unwrap_err(), SwapError::NotOfferer);
    assert_eq!(s.withdraw_assets(3).unwrap_err(), SwapError::NotOfferWinner);
    let won = s.withdraw_assets(4).unwrap().unwrap();
    assert_eq!(won[0].non_fungible_buckets.as_ref().unwrap()[0].ids, vec![2]);
    assert_eq!(s.withdraw_assets(4).unwrap_err(), SwapError::WithdrawnByOwner);
    assert_eq!(s.cancel_escrow(1).unwrap_err(), SwapError::SoldByOther);
}

#[test]
fn offer_replaced_and_cancelled_swap() {
    let mut s = AvagoSwapOffer::instantiate(1, 6, OfferArgs { offered_resource: cats(&[2]) });
    s.offer(3, xrd(40)).unwrap();
    s.offer(3, xrd(45)).unwrap();
    assert_eq!(s.offers.len(), 1);
    assert_eq!(s.withdraw_assets(3).unwrap_err(), SwapError::NoOfferSelected);
    let back = s.cancel_escrow(1).unwrap().unwrap();
    assert_eq!(back[0].non_fungible_buckets.as_ref().unwrap()[0].ids, vec![2]);
    assert_eq!(s.offer(4, xrd(1)).unwrap_err(), SwapError::Cancelled);
    assert_eq!(s.exchange(1, Args2 { selected: badge(3) }).unwrap_err(), SwapError::Cancelled);
}

#[test]
fn auction_vault_limit() {
    let mut s = auction();
    s.bids_vault.amount = Amount { hi: i64::MAX, lo: u128::MAX - 5 };
    assert_eq!(s.bid(badge(2), ft(XRD, 6)).unwrap_err(), SwapError::AmountOverflow);
    assert!(s.highest_bid.is_none());
    assert!(s.bid(badge(2), ft(XRD, 5)).unwrap().is_none());
    assert_eq!(s.bids_vault.amount, Amount { hi: i64::MAX, lo: u128::MAX });
}

#[test]
fn auction_takes_bids_beyond_128_bits() {
    let mut s = auction();
    s.bid(badge(2), ft(XRD, i128::MAX)).unwrap();
    s.bid(badge(3), FungibleHolding { resource: XRD, divisibility: 18, amount: Amount { hi: 1, lo: 0 } }).unwrap();
    // The vault now holds 2^127 - 1 + 2^128 attos.
    assert_eq!(s.bids_vault.amount, Amount { hi: 1, lo: i128::MAX as u128 });
    let (paid, _) = s.exchange(badge(1)).unwrap();
    assert_eq!(
        paid.unwrap()[0].fungible_buckets.as_ref().unwrap()[0],
        FungibleHolding { resource: XRD, divisibility: 18, amount: Amount { hi: 1, lo: 0 } }
    );
    assert_eq!(s.bids_vault, ft(XRD, i128::MAX));
}

#[test]
fn simple_swap_negative_price_cannot_be_taken() {
    let mut s = simple(-5);
    assert_eq!(s.exchange(2, xrd(10)).unwrap_err(), SwapError::BucketShort);
    assert!(!s.status.is_sold);
}

#[test]
fn basic_swap_asking_nfts() {
    let mut ids = HashMap::new();
    ids.insert(CATS, vec![1, 2]);
    let req = RequiredResources { fungible_token_rs: None, non_fungible_token_rs: Some(ids) };
    let mut s = AvagoSwapBasic::instantiate(
        amt(20),
        badge(1),
        7,
        Args { offered_resource: xrd(500), requested_resource: req },
        None,
    );
    assert_eq!(s.exchange(badge(2), cats(&[1]), None).unwrap_err(), SwapError::BucketShort);
    assert_eq!(s.exchange(badge(2), xrd(1), None).unwrap_err(), SwapError::RequiredNftAssets);
    let (out, roy) = s.exchange(badge(2), cats(&[1, 2, 3]), None).unwrap();
    assert!(roy.is_none());
    let out = out.unwrap();
    assert_eq!(out[0].fungible_buckets.as_ref().unwrap()[0], ft(XRD, 500));
    assert_eq!(out[1].non_fungible_buckets.as_ref().unwrap()[0].ids, vec![3]);
    let (paid, _) = s.withdraw_assets(badge(1)).unwrap();
    assert_eq!(paid.unwrap()[0].non_fungible_buckets.as_ref().unwrap()[0].ids, vec![1, 2]);
}

#[test]
fn auction_well_formedness() {
    let mut s = auction();
    assert!(s.is_well_formed());
    s.bid(badge(2), ft(XRD, 10)).unwrap();
    assert!(s.is_well_formed());
    let mut short = auction();
    short.bid(badge(2), ft(XRD, 10)).unwrap();
    short.bids_vault.amount = amt(5);
    assert!(!short.is_well_formed());
    let mut twice = auction();
    twice.bids_vault.amount = amt(10);
    twice.bidder = vec![
        HighestBidder { non_fungible_global_id: badge(4), amount: amt(3) },
        HighestBidder { non_fungible_global_id: badge(4), amount: amt(2) },
    ];
    assert!(!twice.is_well_formed());
    twice.bidder[1].non_fungible_global_id = badge(5);
    assert!(twice.is_well_formed());
    twice.bidder[1].amount = amt(-1);
    assert!(!twice.is_well_formed());
}

#[test]
fn auction_bids_rise_over_run() {
    let mut s = auction();
    let mut taken: Vec<i128> = Vec::new();
    for (who, amount) in [(2u64, 5i128), (3, 5), (4, 8), (2, 7), (5, 20)] {
        if s.bid(badge(who), ft(XRD, amount)).is_ok() {
            taken.push(amount);
            assert_eq!(s.highest_bid.unwrap().amount, amt(amount));
        }
    }
    assert_eq!(taken, vec![5, 8, 20]);
    assert_eq!(s.bids_vault.amount, amt(33));
}
