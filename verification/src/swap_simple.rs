use vstd::prelude::*;

use crate::common::{status_grows, 
    royalty_view, ArgsSimpleSwap, Assets, FungibleHolding, NonFungibleHolding, RoyalityData,
    Status,
};
use crate::amount::{amount_of, fits, Amount, FULL_DIVISIBILITY};
use crate::error::SwapError;

verus! {

/// An escrow that sells one non-fungible for a fixed price in XRD.
#[derive(Debug)]
pub struct AvagoSwapSimple {
    pub id: u64,
    pub vault: NonFungibleHolding,
    pub service_royality: Amount,
    pub owner: u64,
    pub taker: Option<u64>,
    pub royality_data: Option<RoyalityData>,
    pub status: Status,
    pub price: Amount,
    pub xrd_vault: FungibleHolding,
}

impl AvagoSwapSimple {
    /// The XRD vault holds the price once the swap is sold and nothing before; it
    /// is withdrawn only after the sale; a sold swap is never cancelled.
    pub open spec fn wf(self) -> bool {
        &&& self.status.is_sold <==> self.taker is Some
        &&& !self.status.is_sold ==> self.xrd_vault.amount.value() == 0
        &&& self.status.is_sold && !self.status.is_took ==> self.xrd_vault.amount == self.price
        &&& self.status.is_took ==> self.status.is_sold && self.xrd_vault.amount.value() == 0
        &&& !(self.status.is_sold && self.status.is_cancelled)
    }

    /// Whether the swap is well formed (see `wf`).
    pub fn is_well_formed(&self) -> (r: bool)
        ensures
            r == self.wf(),
    {
        let vault_empty = !self.xrd_vault.amount.is_negative() && !Amount::zero().less_than(
            &self.xrd_vault.amount,
        );
        let holds_price = self.xrd_vault.amount == self.price;
        self.status.is_sold == self.taker.is_some() && (self.status.is_sold || vault_empty) && (
        !self.status.is_sold || self.status.is_took || holds_price) && (!self.status.is_took || (
        self.status.is_sold && vault_empty)) && !(self.status.is_sold && self.status.is_cancelled)
    }

    /// Creates the swap of `owner` selling `args.asset` for `args.price` attos of
    /// the resource `xrd`; `royalty` is the royalty carried by the asset.
    pub fn instantiate(
        service_royality: Amount,
        owner: u64,
        id: u64,
        args: ArgsSimpleSwap,
        royalty: Option<RoyalityData>,
        xrd: u64,
    ) -> (r: Self)
        ensures
            r.wf(),
            r.id == id,
            r.owner == owner,
            r.service_royality == service_royality,
            r.price == args.price,
            r.vault@ == args.asset@,
            r.xrd_vault.resource == xrd,
            r.xrd_vault.divisibility == FULL_DIVISIBILITY,
            r.xrd_vault.amount.value() == 0,
            royalty_view(r.royality_data) == royalty_view(royalty),
            (r.status == Status { is_sold: false, is_cancelled: false, is_took: false }),
    {
        AvagoSwapSimple {
            id,
            owner,
            price: args.price,
            royality_data: royalty,
            service_royality,
            taker: None,
            status: Status::fresh(),
            vault: args.asset,
            xrd_vault: FungibleHolding { resource: xrd, divisibility: FULL_DIVISIBILITY, amount: Amount::zero() },
        }
    }

    /// Why `required_assets` cannot buy the swap now, if they cannot: the first
    /// fungible bucket pays, and must be XRD above the price.
    pub open spec fn exchange_refusal(self, required_assets: Assets) -> Option<SwapError> {
        if self.status.is_cancelled {
            Some(SwapError::Cancelled)
        } else if self.status.is_sold || self.status.is_took {
            Some(SwapError::BoughtByOther)
        } else if required_assets.ft() is None || required_assets.ft()->0.len() == 0 {
            Some(SwapError::PaymentMissing)
        } else if required_assets.ft()->0[0].resource != self.xrd_vault.resource {
            Some(SwapError::WrongPaymentResource)
        } else if !(required_assets.ft()->0[0].amount.value() > self.price.value()) {
            Some(SwapError::PaymentTooLow)
        } else if !fits(self.price, required_assets.ft()->0[0].divisibility) {
            Some(SwapError::BucketShort)
        } else {
            None
        }
    }

    /// `badge` buys the non-fungible with the first fungible bucket of
    /// `required_assets`: the price stays in the swap, and the non-fungible and
    /// the change are handed back, with the swap's royalty. The other buckets of
    /// `required_assets` are not used.
    pub fn exchange(&mut self, badge: u64, required_assets: Assets) -> (r: Result<
        (Option<Vec<Assets>>, Option<RoyalityData>),
        SwapError,
    >)
        requires
            old(self).wf(),
        ensures
            status_grows(old(self).status, final(self).status),
            final(self).wf(),
            old(self).exchange_refusal(required_assets) is Some ==> (r matches Err(e) && e == old(
                self,
            ).exchange_refusal(required_assets)->0 && *final(self) == *old(self)),
            old(self).exchange_refusal(required_assets) is None ==> {
                let pay = required_assets.ft()->0[0];
                &&& r matches Ok((Some(v), roy)) && v@.len() == 1 && v@[0].nft() == Some(
                    seq![old(self).vault@],
                ) && v@[0].ft() == Some(
                    seq![FungibleHolding { resource: pay.resource, divisibility: pay.divisibility, amount: amount_of(pay.amount.value() - old(self).price.value()) }],
                ) && royalty_view(roy) == royalty_view(old(self).royality_data)
                &&& final(self).status == Status {
                    is_sold: true,
                    is_cancelled: false,
                    is_took: false,
                }
                &&& final(self).taker == Some(badge)
                &&& final(self).xrd_vault == FungibleHolding {
                    resource: old(self).xrd_vault.resource,
                    divisibility: old(self).xrd_vault.divisibility,
                    amount: old(self).price,
                }
                &&& final(self).vault@ == (old(self).vault.resource, Seq::<u64>::empty())
                &&& final(self).price == old(self).price
                &&& final(self).owner == old(self).owner
                &&& final(self).id == old(self).id
                &&& final(self).service_royality == old(self).service_royality
                &&& final(self).royality_data == old(self).royality_data
            },
    {
        if self.status.is_cancelled {
            return Err(SwapError::Cancelled);
        }
        if self.status.is_sold {
            return Err(SwapError::BoughtByOther);
        }
        if self.status.is_took {
            return Err(SwapError::BoughtByOther);
        }
        let buckets = match required_assets.fungible_buckets {
            None => {
                return Err(SwapError::PaymentMissing);
            },
            Some(b) => b,
        };
        if buckets.len() == 0 {
            return Err(SwapError::PaymentMissing);
        }
        let xrd_bucket = buckets[0];
        if xrd_bucket.resource != self.xrd_vault.resource {
            return Err(SwapError::WrongPaymentResource);
        }
        if !self.price.less_than(&xrd_bucket.amount) {
            return Err(SwapError::PaymentTooLow);
        }
        if !self.price.fits(xrd_bucket.divisibility) {
            return Err(SwapError::BucketShort);
        }
        let rest = match xrd_bucket.amount.checked_sub(&self.price) {
            Some(d) => d,
            None => {
                return Err(SwapError::BucketShort);
            },
        };
        self.status.is_sold = true;
        self.xrd_vault.amount = self.price;
        self.taker = Some(badge);
        let change = FungibleHolding { resource: xrd_bucket.resource, divisibility: xrd_bucket.divisibility, amount: rest };
        let mut ids: Vec<u64> = Vec::new();
        std::mem::swap(&mut ids, &mut self.vault.ids);
        let asset = NonFungibleHolding { resource: self.vault.resource, ids };
        let mut nfts: Vec<NonFungibleHolding> = Vec::new();
        nfts.push(asset);
        let mut fts: Vec<FungibleHolding> = Vec::new();
        fts.push(change);
        let asset_to_return = Assets {
            non_fungible_buckets: Some(nfts),
            fungible_buckets: Some(fts),
        };
        proof {
            assert(asset_to_return.nft()->0 =~= seq![old(self).vault@]);
            assert(asset_to_return.ft()->0 =~= seq![change]);
        }
        let royalty = match &self.royality_data {
            Some(d) => Some(d.duplicate()),
            None => None,
        };
        let mut out: Vec<Assets> = Vec::new();
        out.push(asset_to_return);
        Ok((Some(out), royalty))
    }

    /// Why the owner cannot withdraw the price now, if it cannot.
    pub open spec fn withdraw_refusal(self, badge: u64) -> Option<SwapError> {
        if badge != self.owner {
            Some(SwapError::NotOwnerWithdraw)
        } else if !self.status.is_sold {
            Some(SwapError::NotSoldYet)
        } else if self.status.is_cancelled {
            Some(SwapError::Cancelled)
        } else if self.status.is_took {
            Some(SwapError::WithdrawnByOwner)
        } else {
            None
        }
    }

    /// The owner takes the price out of a sold swap, once; the service royalty
    /// is due on it.
    pub fn withdraw_assets(&mut self, badge: u64) -> (r: Result<
        (Option<Vec<Assets>>, Option<RoyalityData>),
        SwapError,
    >)
        requires
            old(self).wf(),
        ensures
            status_grows(old(self).status, final(self).status),
            final(self).wf(),
            old(self).withdraw_refusal(badge) is Some ==> (r matches Err(e) && e == old(
                self,
            ).withdraw_refusal(badge)->0 && *final(self) == *old(self)),
            old(self).withdraw_refusal(badge) is None ==> {
                &&& r matches Ok((Some(v), Some(roy))) && v@.len() == 1 && v@[0].nft() is None
                    && v@[0].ft() == Some(seq![old(self).xrd_vault]) && roy@ == (
                    Seq::<u64>::empty(),
                    old(self).service_royality,
                )
                &&& final(self).status == Status {
                    is_sold: true,
                    is_cancelled: false,
                    is_took: true,
                }
                &&& final(self).xrd_vault == FungibleHolding {
                    resource: old(self).xrd_vault.resource,
                    divisibility: old(self).xrd_vault.divisibility,
                    amount: Amount { hi: 0, lo: 0 },
                }
                &&& final(self).vault@ == old(self).vault@
                &&& final(self).id == old(self).id
                &&& final(self).owner == old(self).owner
                &&& final(self).taker == old(self).taker
                &&& final(self).price == old(self).price
                &&& final(self).service_royality == old(self).service_royality
                &&& final(self).royality_data == old(self).royality_data
            },
    {
        if badge != self.owner {
            return Err(SwapError::NotOwnerWithdraw);
        }
        if !self.status.is_sold {
            return Err(SwapError::NotSoldYet);
        }
        if self.status.is_cancelled {
            return Err(SwapError::Cancelled);
        }
        if self.status.is_took {
            return Err(SwapError::WithdrawnByOwner);
        }
        self.status.is_took = true;
        let paid = self.xrd_vault;
        self.xrd_vault.amount = Amount::zero();
        let mut fts: Vec<FungibleHolding> = Vec::new();
        fts.push(paid);
        let asset_to_return = Assets { non_fungible_buckets: None, fungible_buckets: Some(fts) };
        proof {
            assert(asset_to_return.ft()->0 =~= seq![paid]);
        }
        let mut out: Vec<Assets> = Vec::new();
        out.push(asset_to_return);
        Ok((Some(out), Some(RoyalityData::service(self.service_royality))))
    }

    /// Why the owner cannot cancel the swap now, if it cannot.
    pub open spec fn cancel_refusal(self, badge: u64) -> Option<SwapError> {
        if badge != self.owner {
            Some(SwapError::NotOwnerCancel)
        } else if self.status.is_sold {
            Some(SwapError::NotSoldYet)
        } else if self.status.is_cancelled {
            Some(SwapError::Cancelled)
        } else if self.status.is_took {
            Some(SwapError::WithdrawnByOwner)
        } else {
            None
        }
    }

    /// The owner calls off an unsold swap and takes the non-fungible back.
    pub fn cancel_escrow(&mut self, badge: u64) -> (r: Result<Option<Vec<Assets>>, SwapError>)
        requires
            old(self).wf(),
        ensures
            status_grows(old(self).status, final(self).status),
            final(self).wf(),
            old(self).cancel_refusal(badge) is Some ==> (r matches Err(e) && e == old(
                self,
            ).cancel_refusal(badge)->0 && *final(self) == *old(self)),
            old(self).cancel_refusal(badge) is None ==> {
                &&& r matches Ok(Some(v)) && v@.len() == 1 && v@[0].nft() == Some(
                    seq![old(self).vault@],
                ) && v@[0].ft() is None
                &&& final(self).status == Status {
                    is_sold: false,
                    is_cancelled: true,
                    is_took: false,
                }
                &&& final(self).vault@ == (old(self).vault.resource, Seq::<u64>::empty())
                &&& final(self).xrd_vault == old(self).xrd_vault
                &&& final(self).id == old(self).id
                &&& final(self).owner == old(self).owner
                &&& final(self).taker == old(self).taker
                &&& final(self).price == old(self).price
                &&& final(self).service_royality == old(self).service_royality
                &&& final(self).royality_data == old(self).royality_data
            },
    {
        if badge != self.owner {
            return Err(SwapError::NotOwnerCancel);
        }
        if self.status.is_sold {
            return Err(SwapError::NotSoldYet);
        }
        if self.status.is_cancelled {
            return Err(SwapError::Cancelled);
        }
        if self.status.is_took {
            return Err(SwapError::WithdrawnByOwner);
        }
        self.status.is_cancelled = true;
        let mut ids: Vec<u64> = Vec::new();
        std::mem::swap(&mut ids, &mut self.vault.ids);
        let asset = NonFungibleHolding { resource: self.vault.resource, ids };
        let mut nfts: Vec<NonFungibleHolding> = Vec::new();
        nfts.push(asset);
        let to_return = Assets { non_fungible_buckets: Some(nfts), fungible_buckets: None };
        proof {
            assert(to_return.nft()->0 =~= seq![old(self).vault@]);
        }
        let mut out: Vec<Assets> = Vec::new();
        out.push(to_return);
        Ok(Some(out))
    }
}

} // verus!
