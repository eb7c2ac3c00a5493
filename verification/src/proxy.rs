use std::collections::{HashMap, HashSet};
use vstd::prelude::*;

use crate::common::{ArgsSimpleSwap, AvagoBadge, FungibleHolding, NonFungibleHolding};
use crate::amount::{amount_of, fits, in_range, Amount, FULL_DIVISIBILITY};
use crate::error::SwapError;

verus! {

broadcast use {vstd::std_specs::hash::group_hash_axioms, vstd::string::group_string_axioms};

/// A blueprint that swaps are instantiated from: its package and its name.
#[derive(Debug)]
pub struct BlueprintId {
    pub package_address: u64,
    pub blueprint_name: String,
}

impl View for BlueprintId {
    type V = (u64, Seq<char>);

    open spec fn view(&self) -> (u64, Seq<char>) {
        (self.package_address, self.blueprint_name@)
    }
}

/// The views of the registered swap styles.
pub open spec fn styles_view(m: Map<u8, BlueprintId>) -> Map<u8, (u64, Seq<char>)> {
    m.map_values(|b: BlueprintId| b@)
}

/// The counters of the proxy: members registered and swaps created so far.
#[derive(Clone, Copy, PartialEq, Eq, Structural, Debug)]
pub struct Ids {
    pub member: u64,
    pub swap: u128,
}

impl Ids {
    /// Both counters at zero.
    pub fn new() -> (r: Self)
        ensures
            r.member == 0,
            r.swap == 0,
    {
        Ids { member: 0u64, swap: 0u128 }
    }
}

/// How a swap is to be instantiated: the blueprint, and the arguments that the
/// proxy adds in front of the caller's: its service royalty, the caller's badge
/// and the new swap's number.
#[derive(Debug)]
pub struct SwapCall {
    pub package_address: u64,
    pub blueprint_name: String,
    pub service_royality: Amount,
    pub owner: u64,
    pub swap_id: u128,
}

/// The registry of members and of swap styles, which creates swaps.
#[derive(Debug)]
pub struct AvagoProxy {
    pub xrd_vault: FungibleHolding,
    pub service_royality: Amount,
    pub resource_manager: u64,
    pub swap_style: HashMap<u8, BlueprintId>,
    pub users: HashSet<u64>,
    pub id: Ids,
    pub reward_address: Option<u64>,
}

/// The swap styles a proxy starts with, all in the package `p`.
pub open spec fn default_styles(p: u64) -> Map<u8, (u64, Seq<char>)> {
    map![
        1u8 => (p, "AvagoSwapSimple"@),
        2u8 => (p, "AvagoSwapBasic"@),
        3u8 => (p, "AvagoSwapBid"@),
        4u8 => (p, "AvagoSwapOffer"@),
        5u8 => (p, "AvagoSwapP2P"@),
    ]
}

/// `a` and `b` agree on the badge resource, the service royalty, the reward
/// account and the royalty vault.
pub open spec fn same_settings(a: AvagoProxy, b: AvagoProxy) -> bool {
    &&& a.xrd_vault == b.xrd_vault
    &&& a.service_royality == b.service_royality
    &&& a.resource_manager == b.resource_manager
    &&& a.reward_address == b.reward_address
}

/// One attos-denominated unit (10^18 attos).
pub const ONE_UNIT: i128 = 1_000_000_000_000_000_000i128;

/// The service royalty a proxy starts with: 20 units.
pub const DEFAULT_SERVICE_ROYALTY: i128 = 20_000_000_000_000_000_000i128;

/// The call that makes the swap of `call` at position `i` in a batch that
/// starts after swap number `first`, and what that swap is created with.
pub open spec fn batch_entry(
    entry: (SwapCall, ArgsSimpleSwap),
    style: (u64, Seq<char>),
    royalty: Amount,
    owner: u64,
    first: u128,
    i: int,
    asset: (u64, Seq<u64>),
    price: Amount,
) -> bool {
    &&& entry.0.package_address == style.0
    &&& entry.0.blueprint_name@ == style.1
    &&& entry.0.service_royality == royalty
    &&& entry.0.owner == owner
    &&& entry.0.swap_id == first + i + 1
    &&& entry.1.asset@ == (asset.0, seq![asset.1[i]])
    &&& entry.1.price == price
}

/// A call on the proxy hands out the swap numbers `handed`: they follow its
/// swap counter one by one, and the counter moves past them.
pub open spec fn hands_out(before: AvagoProxy, after: AvagoProxy, handed: Seq<u128>) -> bool {
    &&& after.id.swap == before.id.swap + handed.len()
    &&& forall|i: int| 0 <= i < handed.len() ==> #[trigger] handed[i] == before.id.swap + i + 1
}

/// A call on the proxy keeps its service royalty and gives it to each swap it
/// creates; `given` are the royalties the new swaps are given.
pub open spec fn passes_royalty(before: AvagoProxy, after: AvagoProxy, given: Seq<Amount>) -> bool {
    &&& after.service_royality == before.service_royality
    &&& forall|i: int| 0 <= i < given.len() ==> #[trigger] given[i] == before.service_royality
}

/// The swaps that the result of `create_swap` asks to create.
pub open spec fn created_one(r: Result<SwapCall, SwapError>) -> Seq<SwapCall> {
    match r {
        Ok(c) => seq![c],
        Err(_) => Seq::empty(),
    }
}

/// The swaps that the result of `create_multiple_swap` asks to create.
pub open spec fn created_batch(r: Result<Vec<(SwapCall, ArgsSimpleSwap)>, SwapError>) -> Seq<
    SwapCall,
> {
    match r {
        Ok(calls) => Seq::new(calls@.len(), |i: int| calls@[i].0),
        Err(_) => Seq::empty(),
    }
}

/// The numbers of the swaps `calls`.
pub open spec fn numbers_of(calls: Seq<SwapCall>) -> Seq<u128> {
    Seq::new(calls.len(), |i: int| calls[i].swap_id)
}

/// The service royalties the swaps `calls` are given.
pub open spec fn royalties_of(calls: Seq<SwapCall>) -> Seq<Amount> {
    Seq::new(calls.len(), |i: int| calls[i].service_royality)
}

fn name_copy(s: &String) -> (r: String)
    ensures
        r@ == s@,
{
    s.clone()
}

impl AvagoProxy {
    /// Creates the proxy of the badge resource `resource_manager`, with the
    /// five swap styles of `package_address`, a service royalty of 20 units, no
    /// member and no swap; its royalty vault holds the resource `xrd`, which is
    /// divided to the atto.
    pub fn instantiate_proxy(package_address: u64, resource_manager: u64, xrd: u64) -> (r: Self)
        ensures
            styles_view(r.swap_style@) == default_styles(package_address),
            r.service_royality.value() == 20 * ONE_UNIT,
            r.resource_manager == resource_manager,
            r.users@ == Set::<u64>::empty(),
            r.id.member == 0,
            r.id.swap == 0,
            (r.reward_address is None),
            r.xrd_vault.resource == xrd,
            r.xrd_vault.divisibility == FULL_DIVISIBILITY,
            r.xrd_vault.amount.value() == 0,
    {
        let mut swap_style: HashMap<u8, BlueprintId> = HashMap::new();
        swap_style.insert(
            1u8,
            BlueprintId { package_address, blueprint_name: "AvagoSwapSimple".to_string() },
        );
        swap_style.insert(
            2u8,
            BlueprintId { package_address, blueprint_name: "AvagoSwapBasic".to_string() },
        );
        swap_style.insert(
            3u8,
            BlueprintId { package_address, blueprint_name: "AvagoSwapBid".to_string() },
        );
        swap_style.insert(
            4u8,
            BlueprintId { package_address, blueprint_name: "AvagoSwapOffer".to_string() },
        );
        swap_style.insert(
            5u8,
            BlueprintId { package_address, blueprint_name: "AvagoSwapP2P".to_string() },
        );
        proof {
            assert(styles_view(swap_style@) =~= default_styles(package_address));
        }
        AvagoProxy {
            xrd_vault: FungibleHolding { resource: xrd, divisibility: FULL_DIVISIBILITY, amount: Amount::zero() },
            service_royality: Amount::from_attos(DEFAULT_SERVICE_ROYALTY),
            resource_manager,
            users: HashSet::new(),
            reward_address: None,
            id: Ids::new(),
            swap_style,
        }
    }

    /// Registers (or replaces) the blueprint of swap style `id`.
    pub fn change_swap_style(&mut self, id: u8, package_address: u64, blueprint_name: String)
        ensures
            hands_out(*old(self), *final(self), Seq::empty()),
            passes_royalty(*old(self), *final(self), Seq::empty()),
            styles_view(final(self).swap_style@) == styles_view(old(self).swap_style@).insert(
                id,
                (package_address, blueprint_name@),
            ),
            final(self).users@ == old(self).users@,
            final(self).id == old(self).id,
            same_settings(*final(self), *old(self)),
    {
        self.swap_style.insert(id, BlueprintId { package_address, blueprint_name });
        proof {
            assert(styles_view(self.swap_style@) =~= styles_view(old(self).swap_style@).insert(
                id,
                (package_address, blueprint_name@),
            ));
        }
    }

    /// Why `account` cannot register now, if it cannot.
    pub open spec fn register_refusal(self, account: u64) -> Option<SwapError> {
        if self.users@.contains(account) {
            Some(SwapError::AlreadyRegistered)
        } else if self.id.member == u64::MAX {
            Some(SwapError::CounterOverflow)
        } else {
            None
        }
    }

    /// Registers `account` as a member. Returns the local id of its new badge,
    /// the next member number, and the badge's data.
    pub fn register(&mut self, account: u64) -> (r: Result<(u64, AvagoBadge), SwapError>)
        ensures
            hands_out(*old(self), *final(self), Seq::empty()),
            passes_royalty(*old(self), *final(self), Seq::empty()),
            old(self).register_refusal(account) is Some ==> (r matches Err(e) && e == old(
                self,
            ).register_refusal(account)->0 && *final(self) == *old(self)),
            old(self).register_refusal(account) is None ==> {
                &&& r == Ok::<(u64, AvagoBadge), SwapError>(
                    ((old(self).id.member + 1) as u64, AvagoBadge { owner: account }),
                )
                &&& final(self).users@ == old(self).users@.insert(account)
                &&& final(self).id == Ids {
                    member: (old(self).id.member + 1) as u64,
                    swap: old(self).id.swap,
                }
                &&& styles_view(final(self).swap_style@) == styles_view(old(self).swap_style@)
                &&& same_settings(*final(self), *old(self))
            },
    {
        if self.users.contains(&account) {
            return Err(SwapError::AlreadyRegistered);
        }
        if self.id.member == u64::MAX {
            return Err(SwapError::CounterOverflow);
        }
        self.id.member = self.id.member + 1u64;
        self.users.insert(account);
        Ok((self.id.member, AvagoBadge { owner: account }))
    }

    /// Why the badge of `badge_resource` carrying `data` cannot unregister its
    /// account now, if it cannot.
    pub open spec fn unregister_refusal(self, badge_resource: u64, data: AvagoBadge) -> Option<
        SwapError,
    > {
        if badge_resource != self.resource_manager {
            Some(SwapError::InvalidBadgeResource)
        } else if !self.users@.contains(data.owner) {
            Some(SwapError::NotRegistered)
        } else {
            None
        }
    }

    /// Unregisters the account of a member badge handed in (to be burnt).
    pub fn unregister(&mut self, badge_resource: u64, data: AvagoBadge) -> (r: Result<
        (),
        SwapError,
    >)
        ensures
            hands_out(*old(self), *final(self), Seq::empty()),
            passes_royalty(*old(self), *final(self), Seq::empty()),
            old(self).unregister_refusal(badge_resource, data) is Some ==> (r matches Err(e) && e
                == old(self).unregister_refusal(badge_resource, data)->0 && *final(self) == *old(
                self,
            )),
            old(self).unregister_refusal(badge_resource, data) is None ==> {
                &&& r is Ok
                &&& final(self).users@ == old(self).users@.remove(data.owner)
                &&& final(self).id == old(self).id
                &&& styles_view(final(self).swap_style@) == styles_view(old(self).swap_style@)
                &&& same_settings(*final(self), *old(self))
            },
    {
        if badge_resource != self.resource_manager {
            return Err(SwapError::InvalidBadgeResource);
        }
        if !self.users.contains(&data.owner) {
            return Err(SwapError::NotRegistered);
        }
        self.users.remove(&data.owner);
        Ok(())
    }

    /// The local id of the member badge shown in a proof of `proof_resource`,
    /// if the proof is of this proxy's badges.
    pub fn check_badge(&self, proof_resource: u64, proof_local_id: u64) -> (r: Result<
        u64,
        SwapError,
    >)
        ensures
            proof_resource != self.resource_manager ==> r == Err::<u64, SwapError>(
                SwapError::InvalidProof,
            ),
            proof_resource == self.resource_manager ==> r == Ok::<u64, SwapError>(proof_local_id),
    {
        if proof_resource != self.resource_manager {
            Err(SwapError::InvalidProof)
        } else {
            Ok(proof_local_id)
        }
    }

    /// Why a swap of `style` cannot be created now, if it cannot.
    pub open spec fn create_swap_refusal(self, proof_resource: u64, style: u8) -> Option<
        SwapError,
    > {
        if style == 0 {
            Some(SwapError::SimpleStyleNotSupported)
        } else if proof_resource != self.resource_manager {
            Some(SwapError::InvalidProof)
        } else if self.id.swap == u128::MAX {
            Some(SwapError::CounterOverflow)
        } else if !self.swap_style@.contains_key(style) {
            Some(SwapError::UnknownSwapStyle)
        } else {
            None
        }
    }

    /// The member whose badge is shown creates a swap of `style`: the swap gets
    /// the next swap number. Returns how to instantiate it.
    pub fn create_swap(&mut self, proof_resource: u64, proof_local_id: u64, style: u8) -> (r:
        Result<SwapCall, SwapError>)
        ensures
            hands_out(*old(self), *final(self), numbers_of(created_one(r))),
            passes_royalty(*old(self), *final(self), royalties_of(created_one(r))),
            old(self).create_swap_refusal(proof_resource, style) is Some ==> (r matches Err(e)
                && e == old(self).create_swap_refusal(proof_resource, style)->0 && *final(self)
                == *old(self)),
            old(self).create_swap_refusal(proof_resource, style) is None ==> {
                &&& r matches Ok(call) && (call.package_address, call.blueprint_name@) == styles_view(
                    old(self).swap_style@,
                )[style] && call.service_royality == old(self).service_royality && call.owner
                    == proof_local_id && call.swap_id == old(self).id.swap + 1
                &&& final(self).id == Ids {
                    member: old(self).id.member,
                    swap: (old(self).id.swap + 1) as u128,
                }
                &&& styles_view(final(self).swap_style@) == styles_view(old(self).swap_style@)
                &&& final(self).users@ == old(self).users@
                &&& same_settings(*final(self), *old(self))
            },
    {
        if style == 0 {
            return Err(SwapError::SimpleStyleNotSupported);
        }
        let local_id = match self.check_badge(proof_resource, proof_local_id) {
            Err(e) => {
                return Err(e);
            },
            Ok(l) => l,
        };
        if self.id.swap == u128::MAX {
            return Err(SwapError::CounterOverflow);
        }
        let (package_address, blueprint_name) = match self.swap_style.get(&style) {
            None => {
                return Err(SwapError::UnknownSwapStyle);
            },
            Some(b) => (b.package_address, name_copy(&b.blueprint_name)),
        };
        self.id.swap = self.id.swap + 1u128;
        Ok(
            SwapCall {
                package_address,
                blueprint_name,
                service_royality: self.service_royality,
                owner: local_id,
                swap_id: self.id.swap,
            },
        )
    }

    /// Why the non-fungibles of `assets` cannot each be put on sale now, if
    /// they cannot.
    pub open spec fn create_multiple_swap_refusal(
        self,
        proof_resource: u64,
        assets: NonFungibleHolding,
    ) -> Option<SwapError> {
        if proof_resource != self.resource_manager {
            Some(SwapError::InvalidProof)
        } else if !self.swap_style@.contains_key(1u8) {
            Some(SwapError::UnknownSwapStyle)
        } else if self.id.swap + assets.ids@.len() > u128::MAX {
            Some(SwapError::CounterOverflow)
        } else {
            None
        }
    }

    /// The member whose badge is shown puts each non-fungible of `assets` on
    /// sale for `price` in a simple swap of its own (style 1): the swaps get the
    /// next swap numbers, in the order of the ids. Returns how to instantiate
    /// each, with what it is created with.
    pub fn create_multiple_swap(
        &mut self,
        proof_resource: u64,
        proof_local_id: u64,
        assets: NonFungibleHolding,
        price: Amount,
    ) -> (r: Result<Vec<(SwapCall, ArgsSimpleSwap)>, SwapError>)
        ensures
            hands_out(*old(self), *final(self), numbers_of(created_batch(r))),
            passes_royalty(*old(self), *final(self), royalties_of(created_batch(r))),
            old(self).create_multiple_swap_refusal(proof_resource, assets) is Some ==> (r matches Err(
                e,
            ) && e == old(self).create_multiple_swap_refusal(proof_resource, assets)->0
                && *final(self) == *old(self)),
            old(self).create_multiple_swap_refusal(proof_resource, assets) is None ==> {
                &&& r matches Ok(calls) && calls@.len() == assets.ids@.len() && forall|i: int|
                    0 <= i < calls@.len() ==> batch_entry(
                        #[trigger] calls@[i],
                        styles_view(old(self).swap_style@)[1u8],
                        old(self).service_royality,
                        proof_local_id,
                        old(self).id.swap,
                        i,
                        assets@,
                        price,
                    )
                &&& final(self).id == Ids {
                    member: old(self).id.member,
                    swap: (old(self).id.swap + assets.ids@.len()) as u128,
                }
                &&& styles_view(final(self).swap_style@) == styles_view(old(self).swap_style@)
                &&& final(self).users@ == old(self).users@
                &&& same_settings(*final(self), *old(self))
            },
    {
        let local_id = match self.check_badge(proof_resource, proof_local_id) {
            Err(e) => {
                return Err(e);
            },
            Ok(l) => l,
        };
        let (package_address, blueprint_name) = match self.swap_style.get(&1u8) {
            None => {
                return Err(SwapError::UnknownSwapStyle);
            },
            Some(b) => (b.package_address, name_copy(&b.blueprint_name)),
        };
        let n = assets.ids.len();
        if self.id.swap > u128::MAX - n as u128 {
            return Err(SwapError::CounterOverflow);
        }
        let ghost first = self.id.swap;
        let ghost style = (package_address, blueprint_name@);
        proof {
            assert(style == styles_view(self.swap_style@)[1u8]);
        }
        let royalty = self.service_royality;
        let mut next = self.id.swap;
        let mut calls: Vec<(SwapCall, ArgsSimpleSwap)> = Vec::new();
        let mut i: usize = 0;
        while i < n
            invariant
                i <= n,
                n == assets.ids@.len(),
                next == first + i,
                first + n <= u128::MAX,
                style == (package_address, blueprint_name@),
                calls@.len() == i,
                forall|j: int|
                    0 <= j < i ==> batch_entry(
                        #[trigger] calls@[j],
                        style,
                        royalty,
                        local_id,
                        first,
                        j,
                        assets@,
                        price,
                    ),
            decreases n - i,
        {
            next = next + 1u128;
            let mut one: Vec<u64> = Vec::new();
            one.push(assets.ids[i]);
            let call = SwapCall {
                package_address,
                blueprint_name: name_copy(&blueprint_name),
                service_royality: royalty,
                owner: local_id,
                swap_id: next,
            };
            let args = ArgsSimpleSwap {
                asset: NonFungibleHolding { resource: assets.resource, ids: one },
                price,
            };
            proof {
                assert(args.asset@.1 =~= seq![assets.ids@[i as int]]);
            }
            calls.push((call, args));
            i += 1;
        }
        self.id.swap = next;
        Ok(calls)
    }

    /// Checks the badge shown to call a swap on a member's behalf; returns the
    /// badge's local id, which the call passes first.
    pub fn call_component(&self, proof_resource: u64, proof_local_id: u64) -> (r: Result<
        u64,
        SwapError,
    >)
        ensures
            proof_resource != self.resource_manager ==> r == Err::<u64, SwapError>(
                SwapError::InvalidProof,
            ),
            proof_resource == self.resource_manager ==> r == Ok::<u64, SwapError>(proof_local_id),
    {
        self.check_badge(proof_resource, proof_local_id)
    }

    /// Why `amount` cannot be taken out of the royalty vault after `claimed`
    /// royalties are put into it, if it cannot: the vault cannot hold more than
    /// the range of amounts, nor give more than it holds or an amount its
    /// resource cannot be taken in (see `fits`).
    pub open spec fn claim_refusal(self, claimed: Amount, amount: Amount) -> Option<SwapError> {
        let total = self.xrd_vault.amount.value() + claimed.value();
        if !in_range(total) {
            Some(SwapError::AmountOverflow)
        } else if !fits(amount, self.xrd_vault.divisibility) || amount.value() > total {
            Some(SwapError::VaultShort)
        } else {
            None
        }
    }

    /// Puts the `claimed` royalties of the proxy into its royalty vault and
    /// takes `amount` out of it.
    pub fn claim_custom_royality(&mut self, claimed: Amount, amount: Amount) -> (r: Result<
        FungibleHolding,
        SwapError,
    >)
        requires
            old(self).xrd_vault.amount.value() >= 0,
            claimed.value() >= 0,
        ensures
            hands_out(*old(self), *final(self), Seq::empty()),
            passes_royalty(*old(self), *final(self), Seq::empty()),
            final(self).xrd_vault.amount.value() >= 0,
            old(self).claim_refusal(claimed, amount) is Some ==> (r matches Err(e) && e == old(
                self,
            ).claim_refusal(claimed, amount)->0 && *final(self) == *old(self)),
            old(self).claim_refusal(claimed, amount) is None ==> {
                &&& r == Ok::<FungibleHolding, SwapError>(
                    FungibleHolding { resource: old(self).xrd_vault.resource, divisibility: old(self).xrd_vault.divisibility, amount },
                )
                &&& final(self).xrd_vault == FungibleHolding {
                    resource: old(self).xrd_vault.resource,
                    divisibility: old(self).xrd_vault.divisibility,
                    amount: amount_of(
                        old(self).xrd_vault.amount.value() + claimed.value() - amount.value(),
                    ),
                }
                &&& final(self).id == old(self).id
                &&& final(self).users@ == old(self).users@
                &&& styles_view(final(self).swap_style@) == styles_view(old(self).swap_style@)
                &&& final(self).service_royality == old(self).service_royality
                &&& final(self).resource_manager == old(self).resource_manager
                &&& final(self).reward_address == old(self).reward_address
            },
    {
        let total = match self.xrd_vault.amount.checked_add(&claimed) {
            None => {
                return Err(SwapError::AmountOverflow);
            },
            Some(t) => t,
        };
        if !amount.fits(self.xrd_vault.divisibility) || total.less_than(&amount) {
            return Err(SwapError::VaultShort);
        }
        let rest = match total.checked_sub(&amount) {
            None => {
                return Err(SwapError::VaultShort);
            },
            Some(d) => d,
        };
        self.xrd_vault.amount = rest;
        Ok(FungibleHolding { resource: self.xrd_vault.resource, divisibility: self.xrd_vault.divisibility, amount })
    }

    /// Sets the service royalty that new swaps are created with.
    pub fn change_service_royality(&mut self, amount: Amount)
        ensures
            hands_out(*old(self), *final(self), Seq::empty()),
            final(self).service_royality == amount,
            final(self).id == old(self).id,
            final(self).users@ == old(self).users@,
            final(self).xrd_vault == old(self).xrd_vault,
            final(self).reward_address == old(self).reward_address,
            final(self).resource_manager == old(self).resource_manager,
            styles_view(final(self).swap_style@) == styles_view(old(self).swap_style@),
    {
        self.service_royality = amount;
    }

    /// Sets the account that rewards go to.
    pub fn change_reward_address(&mut self, address: Option<u64>)
        ensures
            hands_out(*old(self), *final(self), Seq::empty()),
            passes_royalty(*old(self), *final(self), Seq::empty()),
            final(self).reward_address == address,
            final(self).id == old(self).id,
            final(self).users@ == old(self).users@,
            final(self).xrd_vault == old(self).xrd_vault,
            final(self).service_royality == old(self).service_royality,
            final(self).resource_manager == old(self).resource_manager,
            styles_view(final(self).swap_style@) == styles_view(old(self).swap_style@),
    {
        self.reward_address = address;
    }
}

} // verus!
