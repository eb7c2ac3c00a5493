use avago::amount::Amount;
use avago::common::{AvagoBadge, FungibleHolding, NonFungibleHolding};
use avago::error::SwapError;
use avago::proxy::{AvagoProxy, Ids, ONE_UNIT};

const PACKAGE: u64 = 500;
const BADGES: u64 = 99;
const XRD: u64 = 1;

fn amt(x: i128) -> Amount {
    Amount::from_attos(x)
}

fn proxy() -> AvagoProxy {
    AvagoProxy::instantiate_proxy(PACKAGE, BADGES, XRD)
}

#[test]
fn proxy_starts_with_five_styles() {
    let p = proxy();
    let names = ["AvagoSwapSimple", "AvagoSwapBasic", "AvagoSwapBid", "AvagoSwapOffer", "AvagoSwapP2P"];
    for (i, name) in names.iter().enumerate() {
        let b = p.swap_style.get(&((i + 1) as u8)).unwrap();
        assert_eq!(b.package_address, PACKAGE);
        assert_eq!(b.blueprint_name, *name);
    }
    assert_eq!(p.swap_style.len(), 5);
    assert_eq!(p.service_royality, amt(20 * ONE_UNIT));
    assert_eq!(p.id, Ids::new());
    assert!(p.users.is_empty());
    assert_eq!(p.reward_address, None);
}

#[test]
fn register_hands_out_increasing_badges() {
    let mut p = proxy();
    assert_eq!(p.register(70).unwrap(), (1, AvagoBadge { owner: 70 }));
    assert_eq!(p.register(71).unwrap(), (2, AvagoBadge { owner: 71 }));
    assert_eq!(p.register(70).unwrap_err(), SwapError::AlreadyRegistered);
    assert_eq!(p.id.member, 2);
    assert_eq!(
        p.unregister(5, AvagoBadge { owner: 70 }).unwrap_err(),
        SwapError::InvalidBadgeResource
    );
    p.unregister(BADGES, AvagoBadge { owner: 70 }).unwrap();
    assert_eq!(p.unregister(BADGES, AvagoBadge { owner: 70 }).unwrap_err(), SwapError::NotRegistered);
    // Re-registering gets a fresh number.
    assert_eq!(p.register(70).unwrap(), (3, AvagoBadge { owner: 70 }));
}

#[test]
fn register_counter_limit() {
    let mut p = proxy();
    p.id.member = u64::MAX;
    assert_eq!(p.register(1).unwrap_err(), SwapError::CounterOverflow);
    assert!(p.users.is_empty());
}

#[test]
fn create_swap_numbers_swaps() {
    let mut p = proxy();
    assert_eq!(p.create_swap(BADGES, 4, 0).unwrap_err(), SwapError::SimpleStyleNotSupported);
    assert_eq!(p.create_swap(7, 4, 2).unwrap_err(), SwapError::InvalidProof);
    assert_eq!(p.create_swap(BADGES, 4, 9).unwrap_err(), SwapError::UnknownSwapStyle);
    assert_eq!(p.id.swap, 0);
    let c = p.create_swap(BADGES, 4, 3).unwrap();
    assert_eq!(c.package_address, PACKAGE);
    assert_eq!(c.blueprint_name, "AvagoSwapBid");
    assert_eq!(c.owner, 4);
    assert_eq!(c.swap_id, 1);
    assert_eq!(c.service_royality, amt(20 * ONE_UNIT));
    let d = p.create_swap(BADGES, 4, 2).unwrap();
    assert_eq!(d.swap_id, 2);
    assert_eq!(d.blueprint_name, "AvagoSwapBasic");
}

#[test]
fn change_swap_style_replaces_and_adds() {
    let mut p = proxy();
    p.change_swap_style(2, 600, "Other".to_string());
    p.change_swap_style(9, 601, "New".to_string());
    assert_eq!(p.swap_style.get(&2).unwrap().blueprint_name, "Other");
    assert_eq!(p.swap_style.get(&2).unwrap().package_address, 600);
    assert_eq!(p.swap_style.get(&9).unwrap().package_address, 601);
    assert_eq!(p.create_swap(BADGES, 1, 9).unwrap().blueprint_name, "New");
}

#[test]
fn create_multiple_swap_one_per_nft() {
    let mut p = proxy();
    p.create_swap(BADGES, 4, 2).unwrap();
    let calls = p
        .create_multiple_swap(BADGES, 4, NonFungibleHolding { resource: 30, ids: vec![7, 8, 9] }, amt(55))
        .unwrap();
    assert_eq!(calls.len(), 3);
    for (i, (call, args)) in calls.iter().enumerate() {
        assert_eq!(call.blueprint_name, "AvagoSwapSimple");
        assert_eq!(call.swap_id, 2 + i as u128);
        assert_eq!(call.owner, 4);
        assert_eq!(args.price, amt(55));
        assert_eq!(args.asset.resource, 30);
        assert_eq!(args.asset.ids, vec![7 + i as u64]);
    }
    assert_eq!(p.id.swap, 4);
    let none = p
        .create_multiple_swap(BADGES, 4, NonFungibleHolding { resource: 30, ids: vec![] }, amt(55))
        .unwrap();
    assert!(none.is_empty());
    assert_eq!(p.id.swap, 4);
    assert_eq!(
        p.create_multiple_swap(1, 4, NonFungibleHolding { resource: 30, ids: vec![1] }, amt(55))
            .unwrap_err(),
        SwapError::InvalidProof
    );
    p.id.swap = u128::MAX - 1;
    assert_eq!(
        p.create_multiple_swap(BADGES, 4, NonFungibleHolding { resource: 30, ids: vec![1, 2] }, amt(5))
            .unwrap_err(),
        SwapError::CounterOverflow
    );
}

#[test]
fn call_component_checks_badge() {
    let p = proxy();
    assert_eq!(p.call_component(BADGES, 12).unwrap(), 12);
    assert_eq!(p.call_component(3, 12).unwrap_err(), SwapError::InvalidProof);
}

#[test]
fn royalties_claimed_and_taken() {
    let mut p = proxy();
    assert_eq!(
        p.claim_custom_royality(amt(100), amt(30)).unwrap(),
        FungibleHolding { resource: XRD, divisibility: 18, amount: amt(30) }
    );
    assert_eq!(p.xrd_vault.amount, amt(70));
    assert_eq!(p.claim_custom_royality(amt(0), amt(71)).unwrap_err(), SwapError::VaultShort);
    assert_eq!(p.claim_custom_royality(amt(0), amt(-1)).unwrap_err(), SwapError::VaultShort);
    assert_eq!(p.xrd_vault.amount, amt(70));
    p.change_service_royality(amt(5));
    assert_eq!(p.service_royality, amt(5));
    p.change_reward_address(Some(8));
    assert_eq!(p.reward_address, Some(8));
}

#[test]
fn royalty_vault_beyond_128_bits() {
    let mut p = proxy();
    p.claim_custom_royality(amt(i128::MAX), amt(0)).unwrap();
    // The vault holds more than 2^127 attos, as a 192-bit decimal does.
    p.claim_custom_royality(amt(i128::MAX), amt(0)).unwrap();
    assert_eq!(p.xrd_vault.amount, Amount { hi: 0, lo: u128::MAX - 1 });
    let taken = p.claim_custom_royality(amt(5), amt(i128::MAX)).unwrap();
    assert_eq!(taken.amount, amt(i128::MAX));
    assert_eq!(p.xrd_vault.amount, amt(i128::MAX).checked_add(&amt(5)).unwrap());
}

#[test]
fn royalty_vault_limit() {
    let mut p = proxy();
    p.xrd_vault.amount = Amount { hi: i64::MAX, lo: u128::MAX - 1 };
    assert_eq!(p.claim_custom_royality(amt(2), amt(0)).unwrap_err(), SwapError::AmountOverflow);
    assert_eq!(p.xrd_vault.amount, Amount { hi: i64::MAX, lo: u128::MAX - 1 });
    p.claim_custom_royality(amt(1), amt(0)).unwrap();
    assert_eq!(p.xrd_vault.amount, Amount { hi: i64::MAX, lo: u128::MAX });
}

#[test]
fn swap_numbers_follow_each_other_over_calls() {
    let mut p = proxy();
    let a = p.create_swap(BADGES, 4, 2).unwrap();
    let batch = p
        .create_multiple_swap(BADGES, 4, NonFungibleHolding { resource: 30, ids: vec![8, 9] }, amt(5))
        .unwrap();
    p.register(70).unwrap();
    let b = p.create_swap(BADGES, 4, 3).unwrap();
    let numbers: Vec<u128> = std::iter::once(a.swap_id)
        .chain(batch.iter().map(|(c, _)| c.swap_id))
        .chain(std::iter::once(b.swap_id))
        .collect();
    assert_eq!(numbers, vec![1, 2, 3, 4]);
    assert_eq!(p.id.swap, 4);
}

#[test]
fn service_royalty_goes_to_every_new_swap() {
    let mut p = proxy();
    p.change_service_royality(amt(7));
    p.register(70).unwrap();
    assert_eq!(p.create_swap(BADGES, 4, 2).unwrap().service_royality, amt(7));
    let batch = p
        .create_multiple_swap(BADGES, 4, NonFungibleHolding { resource: 30, ids: vec![8] }, amt(5))
        .unwrap();
    assert_eq!(batch[0].0.service_royality, amt(7));
    p.change_service_royality(amt(9));
    assert_eq!(p.create_swap(BADGES, 4, 5).unwrap().service_royality, amt(9));
}
