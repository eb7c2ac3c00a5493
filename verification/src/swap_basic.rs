use vstd::prelude::*;

use crate::common::{status_grows, 
    emptied, gives_out, holds_assets, merge_royalties, merged_royalty, royalty_view, same_holdings,
    Assets, AssetsAccumulator, GlobalId, RequiredResources, RoyalityData, Status,
};
pub use crate::common::Args;
use crate::amount::Amount;
use crate::error::SwapError;

verus! {

/// An escrow that hands its offered assets to the first taker who pays what it
/// asks for, and the payment to its owner.
#[derive(Debug)]
pub struct AvagoSwapBasic {
    pub id: u64,
    pub nft_royalities: Option<RoyalityData>,
    pub service_royality: Amount,
    pub status: Status,
    pub owner: GlobalId,
    pub taker: Option<GlobalId>,
    pub offered_resource: AssetsAccumulator,
    pub requested_resource: RequiredResources,
    pub requested_resource_vault: Option<AssetsAccumulator>,
}

impl AvagoSwapBasic {
    /// The payment vault exists exactly once the swap is sold; it is withdrawn
    /// only after the sale; a sold swap is never cancelled.
    pub open spec fn wf(self) -> bool {
        &&& self.status.is_sold <==> self.requested_resource_vault is Some
        &&& self.status.is_sold <==> self.taker is Some
        &&& self.status.is_took ==> self.status.is_sold
        &&& !(self.status.is_sold && self.status.is_cancelled)
    }

    /// Whether the swap is well formed (see `wf`).
    pub fn is_well_formed(&self) -> (r: bool)
        ensures
            r == self.wf(),
    {
        self.status.is_sold == self.requested_resource_vault.is_some() && self.status.is_sold
            == self.taker.is_some() && (!self.status.is_took || self.status.is_sold) && !(
        self.status.is_sold && self.status.is_cancelled)
    }

    /// Creates the swap of `owner` offering `args.offered_resource` for
    /// `args.requested_resource`; `royalty` is the royalty carried by the offered
    /// assets.
    pub fn instantiate(
        service_royality: Amount,
        owner: GlobalId,
        id: u64,
        args: Args,
        royalty: Option<RoyalityData>,
    ) -> (r: Self)
        ensures
            r.wf(),
            r.id == id,
            r.service_royality == service_royality,
            r.owner == owner,
            (r.status == Status { is_sold: false, is_cancelled: false, is_took: false }),
            (r.taker is None),
            royalty_view(r.nft_royalities) == royalty_view(royalty),
            holds_assets(r.offered_resource, args.offered_resource),
            r.requested_resource.ft_req() == args.requested_resource.ft_req(),
            r.requested_resource.nft_req() == args.requested_resource.nft_req(),
    {
        AvagoSwapBasic {
            id,
            service_royality,
            taker: None,
            nft_royalities: royalty,
            owner,
            requested_resource: args.requested_resource,
            requested_resource_vault: None,
            offered_resource: AssetsAccumulator::new(args.offered_resource),
            status: Status::fresh(),
        }
    }

    /// Why the swap cannot be bought now, if it cannot.
    pub open spec fn exchange_refusal(self) -> Option<SwapError> {
        if self.status.is_cancelled {
            Some(SwapError::Cancelled)
        } else if self.status.is_sold || self.status.is_took {
            Some(SwapError::BoughtByOther)
        } else {
            None
        }
    }

    /// `badge` buys the swap with `required_assets`, of which what is asked for
    /// stays in the swap; `taken_royalty` is the royalty carried by what stays.
    /// Hands back the offered assets and the rest of `required_assets`, and the
    /// royalty due: the swap's own extended by `taken_royalty`. The requests and
    /// the given buckets list each id once, as the ledger's id sets do.
    pub fn exchange(
        &mut self,
        badge: GlobalId,
        required_assets: Assets,
        taken_royalty: Option<RoyalityData>,
    ) -> (r: Result<(Option<Vec<Assets>>, Option<RoyalityData>), SwapError>)
        requires
            old(self).wf(),
            old(self).requested_resource.ids_distinct(),
            required_assets.ids_distinct(),
        ensures
            status_grows(old(self).status, final(self).status),
            final(self).wf(),
            old(self).exchange_refusal() is Some ==> (r matches Err(e) && e == old(
                self,
            ).exchange_refusal()->0 && *final(self) == *old(self)),
            old(self).exchange_refusal() is None && old(self).requested_resource.refusal(
                required_assets,
            ) is Some ==> (r matches Err(e) && e == old(self).requested_resource.refusal(
                required_assets,
            )->0 && *final(self) == *old(self)),
            old(self).exchange_refusal() is None && old(self).requested_resource.refusal(
                required_assets,
            ) is None ==> {
                let req = old(self).requested_resource;
                &&& r matches Ok((Some(v), roy)) && v@.len() == 2 && gives_out(
                    v@[0],
                    old(self).offered_resource,
                ) && v@[1].ft() == req.ft_left_of(required_assets) && v@[1].nft()
                    == req.nft_left_of(required_assets) && royalty_view(roy) == merged_royalty(
                    royalty_view(old(self).nft_royalities),
                    royalty_view(taken_royalty),
                )
                &&& final(self).status == Status {
                    is_sold: true,
                    is_cancelled: false,
                    is_took: false,
                }
                &&& final(self).taker == Some(badge)
                &&& final(self).nft_royalities is None
                &&& final(self).requested_resource_vault matches Some(acc) && acc.ft()
                    == req.ft_taken_of(required_assets) && acc.nft() == req.nft_taken_of(
                    required_assets,
                )
                &&& final(self).requested_resource.ft_req() == req.ft_req_closed()
                &&& final(self).requested_resource.nft_req() == req.nft_req_closed()
                &&& emptied(final(self).offered_resource, old(self).offered_resource)
                &&& final(self).owner == old(self).owner
                &&& final(self).id == old(self).id
                &&& final(self).service_royality == old(self).service_royality
            },
    {
        if self.status.is_cancelled {
            return Err(SwapError::Cancelled);
        }
        if self.status.is_sold {
            return Err(SwapError::BoughtByOther);
        }
        if self.status.is_took {
            return Err(SwapError::BoughtByOther);
        }
        let mut required_assets = required_assets;
        let for_component_to_take = match self.requested_resource.take_needed_assets(
            &mut required_assets,
        ) {
            Err(e) => {
                return Err(e);
            },
            Ok(t) => t,
        };
        self.status.is_sold = true;
        let own = self.nft_royalities.take();
        let royality_data = merge_royalties(own, taken_royalty);
        self.requested_resource_vault = Some(AssetsAccumulator::new(for_component_to_take));
        self.taker = Some(badge);
        let offered = self.offered_resource.take();
        let mut out: Vec<Assets> = Vec::new();
        out.push(offered);
        out.push(required_assets);
        Ok((Some(out), royality_data))
    }

    /// Why the owner cannot withdraw the payment now, if it cannot.
    pub open spec fn withdraw_refusal(self, badge: GlobalId) -> Option<SwapError> {
        if badge != self.owner {
            Some(SwapError::NotOwnerWithdraw)
        } else if !self.status.is_sold {
            Some(SwapError::NotSoldYet)
        } else if self.status.is_cancelled {
            Some(SwapError::Cancelled)
        } else if self.status.is_took {
            Some(SwapError::WithdrawnByOwner)
        } else {
            None
        }
    }

    /// The owner takes the payment out of a sold swap, once; the service
    /// royalty is due on it.
    pub fn withdraw_assets(&mut self, badge: GlobalId) -> (r: Result<
        (Option<Vec<Assets>>, Option<RoyalityData>),
        SwapError,
    >)
        requires
            old(self).wf(),
        ensures
            status_grows(old(self).status, final(self).status),
            final(self).wf(),
            old(self).withdraw_refusal(badge) is Some ==> (r matches Err(e) && e == old(
                self,
            ).withdraw_refusal(badge)->0 && *final(self) == *old(self)),
            old(self).withdraw_refusal(badge) is None ==> {
                &&& r matches Ok((Some(v), Some(roy))) && v@.len() == 1 && gives_out(
                    v@[0],
                    old(self).requested_resource_vault->0,
                ) && roy@ == (Seq::<u64>::empty(), old(self).service_royality)
                &&& final(self).status == Status {
                    is_sold: true,
                    is_cancelled: false,
                    is_took: true,
                }
                &&& final(self).requested_resource_vault matches Some(acc) && emptied(
                    acc,
                    old(self).requested_resource_vault->0,
                )
                &&& same_holdings(final(self).offered_resource, old(self).offered_resource)
                &&& final(self).taker == old(self).taker
                &&& final(self).id == old(self).id
                &&& final(self).owner == old(self).owner
                &&& final(self).service_royality == old(self).service_royality
                &&& final(self).nft_royalities == old(self).nft_royalities
                &&& final(self).requested_resource == old(self).requested_resource
            },
    {
        if badge != self.owner {
            return Err(SwapError::NotOwnerWithdraw);
        }
        if !self.status.is_sold {
            return Err(SwapError::NotSoldYet);
        }
        if self.status.is_cancelled {
            return Err(SwapError::Cancelled);
        }
        if self.status.is_took {
            return Err(SwapError::WithdrawnByOwner);
        }
        self.status.is_took = true;
        let mut vault = self.requested_resource_vault.take().unwrap();
        let payment = vault.take();
        self.requested_resource_vault = Some(vault);
        let mut out: Vec<Assets> = Vec::new();
        out.push(payment);
        Ok((Some(out), Some(RoyalityData::service(self.service_royality))))
    }

    /// Why the owner cannot cancel the swap now, if it cannot.
    pub open spec fn cancel_refusal(self, badge: GlobalId) -> Option<SwapError> {
        if badge != self.owner {
            Some(SwapError::NotOwnerCancel)
        } else if self.status.is_sold {
            Some(SwapError::NotSoldYet)
        } else if self.status.is_cancelled {
            Some(SwapError::Cancelled)
        } else if self.status.is_took {
            Some(SwapError::WithdrawnByOwner)
        } else {
            None
        }
    }

    /// The owner calls off an unsold swap and takes the offered assets back.
    pub fn cancel_escrow(&mut self, badge: GlobalId) -> (r: Result<Option<Vec<Assets>>, SwapError>)
        requires
            old(self).wf(),
        ensures
            status_grows(old(self).status, final(self).status),
            final(self).wf(),
            old(self).cancel_refusal(badge) is Some ==> (r matches Err(e) && e == old(
                self,
            ).cancel_refusal(badge)->0 && *final(self) == *old(self)),
            old(self).cancel_refusal(badge) is None ==> {
                &&& r matches Ok(Some(v)) && v@.len() == 1 && gives_out(
                    v@[0],
                    old(self).offered_resource,
                )
                &&& final(self).status == Status {
                    is_sold: false,
                    is_cancelled: true,
                    is_took: false,
                }
                &&& emptied(final(self).offered_resource, old(self).offered_resource)
                &&& final(self).requested_resource_vault is None
                &&& final(self).taker is None
                &&& final(self).id == old(self).id
                &&& final(self).owner == old(self).owner
                &&& final(self).service_royality == old(self).service_royality
                &&& final(self).nft_royalities == old(self).nft_royalities
                &&& final(self).requested_resource == old(self).requested_resource
            },
    {
        if badge != self.owner {
            return Err(SwapError::NotOwnerCancel);
        }
        if self.status.is_sold {
            return Err(SwapError::NotSoldYet);
        }
        if self.status.is_cancelled {
            return Err(SwapError::Cancelled);
        }
        if self.status.is_took {
            return Err(SwapError::WithdrawnByOwner);
        }
        self.status.is_cancelled = true;
        let offered = self.offered_resource.take();
        let mut out: Vec<Assets> = Vec::new();
        out.push(offered);
        Ok(Some(out))
    }
}

} // verus!
