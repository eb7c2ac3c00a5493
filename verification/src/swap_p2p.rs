use vstd::prelude::*;

use crate::common::{status_grows, 
    emptied, gives_out, holds_assets, same_holdings, Assets, AssetsAccumulator, RequiredResources,
    Status,
};
use crate::error::SwapError;

verus! {

/// What a peer-to-peer swap is created with: the assets offered, what is asked
/// in return, and the only member allowed to buy.
#[derive(Debug)]
pub struct ArgsP2P {
    pub offered_resource: Assets,
    pub requested_resource: RequiredResources,
    pub taker: u64,
}

/// An escrow between two members: only the named taker can buy it.
#[derive(Debug)]
pub struct AvagoSwapP2P {
    pub id: u128,
    pub status: Status,
    pub owner: u64,
    pub taker: u64,
    pub offered_resource: AssetsAccumulator,
    pub requested_resource: RequiredResources,
    pub requested_resource_vault: Option<AssetsAccumulator>,
}

impl AvagoSwapP2P {
    /// The payment vault exists exactly once the swap is sold; it is withdrawn
    /// only after the sale; a sold swap is never cancelled.
    pub open spec fn wf(self) -> bool {
        &&& self.status.is_sold <==> self.requested_resource_vault is Some
        &&& self.status.is_took ==> self.status.is_sold
        &&& !(self.status.is_sold && self.status.is_cancelled)
    }

    /// Whether the swap is well formed (see `wf`).
    pub fn is_well_formed(&self) -> (r: bool)
        ensures
            r == self.wf(),
    {
        self.status.is_sold == self.requested_resource_vault.is_some() && (!self.status.is_took
            || self.status.is_sold) && !(self.status.is_sold && self.status.is_cancelled)
    }

    /// Creates the swap of `owner` offering `args.offered_resource` to
    /// `args.taker` for `args.requested_resource`.
    pub fn instantiate(owner: u64, id: u128, args: ArgsP2P) -> (r: Self)
        ensures
            r.wf(),
            r.id == id,
            r.owner == owner,
            r.taker == args.taker,
            (r.status == Status { is_sold: false, is_cancelled: false, is_took: false }),
            holds_assets(r.offered_resource, args.offered_resource),
            r.requested_resource.ft_req() == args.requested_resource.ft_req(),
            r.requested_resource.nft_req() == args.requested_resource.nft_req(),
    {
        AvagoSwapP2P {
            id,
            taker: args.taker,
            owner,
            requested_resource: args.requested_resource,
            requested_resource_vault: None,
            offered_resource: AssetsAccumulator::new(args.offered_resource),
            status: Status::fresh(),
        }
    }

    /// Why `badge` cannot buy the swap now, if it cannot.
    pub open spec fn exchange_refusal(self, badge: u64) -> Option<SwapError> {
        if self.taker != badge {
            Some(SwapError::NoAccess)
        } else if self.status.is_cancelled {
            Some(SwapError::Cancelled)
        } else if self.status.is_sold || self.status.is_took {
            Some(SwapError::BoughtByOther)
        } else {
            None
        }
    }

    /// The named taker buys the swap with `required_assets`, of which what is
    /// asked for stays in the swap. Hands back the offered assets and the rest of
    /// `required_assets`. The requests and the given buckets list each id once,
    /// as the ledger's id sets do.
    pub fn exchange(&mut self, badge: u64, required_assets: Assets) -> (r: Result<
        Option<Vec<Assets>>,
        SwapError,
    >)
        requires
            old(self).wf(),
            old(self).requested_resource.ids_distinct(),
            required_assets.ids_distinct(),
        ensures
            status_grows(old(self).status, final(self).status),
            final(self).wf(),
            old(self).exchange_refusal(badge) is Some ==> (r matches Err(e) && e == old(
                self,
            ).exchange_refusal(badge)->0 && *final(self) == *old(self)),
            old(self).exchange_refusal(badge) is None && old(self).requested_resource.refusal(
                required_assets,
            ) is Some ==> (r matches Err(e) && e == old(self).requested_resource.refusal(
                required_assets,
            )->0 && *final(self) == *old(self)),
            old(self).exchange_refusal(badge) is None && old(self).requested_resource.refusal(
                required_assets,
            ) is None ==> {
                let req = old(self).requested_resource;
                &&& r matches Ok(Some(v)) && v@.len() == 2 && gives_out(
                    v@[0],
                    old(self).offered_resource,
                ) && v@[1].ft() == req.ft_left_of(required_assets) && v@[1].nft()
                    == req.nft_left_of(required_assets)
                &&& final(self).status == Status {
                    is_sold: true,
                    is_cancelled: false,
                    is_took: false,
                }
                &&& final(self).requested_resource_vault matches Some(acc) && acc.ft()
                    == req.ft_taken_of(required_assets) && acc.nft() == req.nft_taken_of(
                    required_assets,
                )
                &&& final(self).requested_resource.ft_req() == req.ft_req_closed()
                &&& final(self).requested_resource.nft_req() == req.nft_req_closed()
                &&& emptied(final(self).offered_resource, old(self).offered_resource)
                &&& final(self).owner == old(self).owner
                &&& final(self).taker == old(self).taker
                &&& final(self).id == old(self).id
            },
    {
        if self.taker != badge {
            return Err(SwapError::NoAccess);
        }
        if self.status.is_cancelled {
            return Err(SwapError::Cancelled);
        }
        if self.status.is_sold {
            return Err(SwapError::BoughtByOther);
        }
        if self.status.is_took {
            return Err(SwapError::BoughtByOther);
        }
        let mut required_assets = required_assets;
        let for_component_to_take = match self.requested_resource.take_needed_assets(
            &mut required_assets,
        ) {
            Err(e) => {
                return Err(e);
            },
            Ok(t) => t,
        };
        self.status.is_sold = true;
        self.requested_resource_vault = Some(AssetsAccumulator::new(for_component_to_take));
        let offered = self.offered_resource.take();
        let mut out: Vec<Assets> = Vec::new();
        out.push(offered);
        out.push(required_assets);
        Ok(Some(out))
    }

    /// Why the owner cannot withdraw the payment now, if it cannot.
    pub open spec fn withdraw_refusal(self, badge: u64) -> Option<SwapError> {
        if badge != self.owner {
            Some(SwapError::NotOwnerWithdraw)
        } else if !self.status.is_sold {
            Some(SwapError::NotSoldYet)
        } else if self.status.is_cancelled {
            Some(SwapError::Cancelled)
        } else if self.status.is_took {
            Some(SwapError::WithdrawnByOwner)
        } else {
            None
        }
    }

    /// The owner takes the payment out of a sold swap, once.
    pub fn withdraw_assets(&mut self, badge: u64) -> (r: Result<Option<Vec<Assets>>, SwapError>)
        requires
            old(self).wf(),
        ensures
            status_grows(old(self).status, final(self).status),
            final(self).wf(),
            old(self).withdraw_refusal(badge) is Some ==> (r matches Err(e) && e == old(
                self,
            ).withdraw_refusal(badge)->0 && *final(self) == *old(self)),
            old(self).withdraw_refusal(badge) is None ==> {
                &&& r matches Ok(Some(v)) && v@.len() == 1 && gives_out(
                    v@[0],
                    old(self).requested_resource_vault->0,
                )
                &&& final(self).status == Status {
                    is_sold: true,
                    is_cancelled: false,
                    is_took: true,
                }
                &&& final(self).requested_resource_vault matches Some(acc) && emptied(
                    acc,
                    old(self).requested_resource_vault->0,
                )
                &&& same_holdings(final(self).offered_resource, old(self).offered_resource)
                &&& final(self).id == old(self).id
                &&& final(self).owner == old(self).owner
                &&& final(self).taker == old(self).taker
                &&& final(self).requested_resource == old(self).requested_resource
            },
    {
        if badge != self.owner {
            return Err(SwapError::NotOwnerWithdraw);
        }
        if !self.status.is_sold {
            return Err(SwapError::NotSoldYet);
        }
        if self.status.is_cancelled {
            return Err(SwapError::Cancelled);
        }
        if self.status.is_took {
            return Err(SwapError::WithdrawnByOwner);
        }
        self.status.is_took = true;
        let mut vault = self.requested_resource_vault.take().unwrap();
        let payment = vault.take();
        self.requested_resource_vault = Some(vault);
        let mut out: Vec<Assets> = Vec::new();
        out.push(payment);
        Ok(Some(out))
    }

    /// Why the owner cannot cancel the swap now, if it cannot.
    pub open spec fn cancel_refusal(self, badge: u64) -> Option<SwapError> {
        if badge != self.owner {
            Some(SwapError::NotOwnerCancel)
        } else if self.status.is_sold {
            Some(SwapError::NotSoldYet)
        } else if self.status.is_cancelled {
            Some(SwapError::Cancelled)
        } else if self.status.is_took {
            Some(SwapError::WithdrawnByOwner)
        } else {
            None
        }
    }

    /// The owner calls off an unsold swap and takes the offered assets back.
    pub fn cancel_escrow(&mut self, badge: u64) -> (r: Result<Option<Vec<Assets>>, SwapError>)
        requires
            old(self).wf(),
        ensures
            status_grows(old(self).status, final(self).status),
            final(self).wf(),
            old(self).cancel_refusal(badge) is Some ==> (r matches Err(e) && e == old(
                self,
            ).cancel_refusal(badge)->0 && *final(self) == *old(self)),
            old(self).cancel_refusal(badge) is None ==> {
                &&& r matches Ok(Some(v)) && v@.len() == 1 && gives_out(
                    v@[0],
                    old(self).offered_resource,
                )
                &&& final(self).status == Status {
                    is_sold: false,
                    is_cancelled: true,
                    is_took: false,
                }
                &&& emptied(final(self).offered_resource, old(self).offered_resource)
                &&& final(self).requested_resource_vault is None
                &&& final(self).id == old(self).id
                &&& final(self).owner == old(self).owner
                &&& final(self).taker == old(self).taker
                &&& final(self).requested_resource == old(self).requested_resource
            },
    {
        if badge != self.owner {
            return Err(SwapError::NotOwnerCancel);
        }
        if self.status.is_sold {
            return Err(SwapError::NotSoldYet);
        }
        if self.status.is_cancelled {
            return Err(SwapError::Cancelled);
        }
        if self.status.is_took {
            return Err(SwapError::WithdrawnByOwner);
        }
        self.status.is_cancelled = true;
        let offered = self.offered_resource.take();
        let mut out: Vec<Assets> = Vec::new();
        out.push(offered);
        Ok(Some(out))
    }
}

} // verus!
