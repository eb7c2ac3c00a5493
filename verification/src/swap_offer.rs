use std::collections::HashMap;
use vstd::prelude::*;

use crate::common::{status_grows, 
    emptied, gives_out, holds_assets, same_holdings, Assets, AssetsAccumulator, GlobalId, Status,
};
use crate::error::SwapError;

verus! {

broadcast use vstd::std_specs::hash::group_hash_axioms;

/// What an offer swap is created with: the assets offered.
#[derive(Debug)]
pub struct Args {
    pub offered_resource: Assets,
}

/// The owner's choice among the offers: the badge of the chosen offerer.
#[derive(Debug)]
pub struct Args2 {
    pub selected: GlobalId,
}

/// An escrow that collects offers from members; the owner picks one and the
/// chosen offerer takes the offered assets.
#[derive(Debug)]
pub struct AvagoSwapOffer {
    pub id: u128,
    pub status: Status,
    pub owner: u64,
    pub offered_resource: AssetsAccumulator,
    pub offers: HashMap<u64, AssetsAccumulator>,
    pub selected: Option<u64>,
}

impl AvagoSwapOffer {
    /// An offer is selected exactly once the swap is sold; the offered assets are
    /// taken only after the sale; a sold swap is never cancelled.
    pub open spec fn wf(self) -> bool {
        &&& self.status.is_sold <==> self.selected is Some
        &&& self.status.is_took ==> self.status.is_sold
        &&& !(self.status.is_sold && self.status.is_cancelled)
    }

    /// Whether the swap is well formed (see `wf`).
    pub fn is_well_formed(&self) -> (r: bool)
        ensures
            r == self.wf(),
    {
        self.status.is_sold == self.selected.is_some() && (!self.status.is_took
            || self.status.is_sold) && !(self.status.is_sold && self.status.is_cancelled)
    }

    /// Creates the swap of `owner` for `args.offered_resource`, with no offer yet.
    pub fn instantiate(owner: u64, id: u128, args: Args) -> (r: Self)
        ensures
            r.wf(),
            r.id == id,
            r.owner == owner,
            (r.status == Status { is_sold: false, is_cancelled: false, is_took: false }),
            r.offers@ == Map::<u64, AssetsAccumulator>::empty(),
            (r.selected is None),
            holds_assets(r.offered_resource, args.offered_resource),
    {
        AvagoSwapOffer {
            id,
            owner,
            offers: HashMap::new(),
            offered_resource: AssetsAccumulator::new(args.offered_resource),
            selected: None,
            status: Status::fresh(),
        }
    }

    /// Why the owner cannot pick `args` now, if it cannot.
    pub open spec fn exchange_refusal(self, owner: u64, args: Args2) -> Option<SwapError> {
        if owner != self.owner {
            Some(SwapError::NotSwapOwner)
        } else if self.status.is_cancelled {
            Some(SwapError::Cancelled)
        } else if self.status.is_sold || self.status.is_took {
            Some(SwapError::BoughtByOther)
        } else if !self.offers@.contains_key(args.selected.local_id) {
            Some(SwapError::SelectedOfferMissing)
        } else {
            None
        }
    }

    /// The owner picks the offer of `args.selected` and takes what it holds out
    /// of its vaults.
    pub fn exchange(&mut self, owner: u64, args: Args2) -> (r: Result<Option<Vec<Assets>>, SwapError>)
        requires
            old(self).wf(),
        ensures
            status_grows(old(self).status, final(self).status),
            final(self).wf(),
            old(self).exchange_refusal(owner, args) is Some ==> (r matches Err(e) && e == old(
                self,
            ).exchange_refusal(owner, args)->0 && *final(self) == *old(self)),
            old(self).exchange_refusal(owner, args) is None ==> {
                let k = args.selected.local_id;
                &&& r matches Ok(Some(v)) && v@.len() == 1 && gives_out(v@[0], old(self).offers@[k])
                &&& final(self).status == Status {
                    is_sold: true,
                    is_cancelled: false,
                    is_took: false,
                }
                &&& final(self).selected == Some(k)
                &&& final(self).offers@ == old(self).offers@.insert(k, final(self).offers@[k])
                &&& emptied(final(self).offers@[k], old(self).offers@[k])
                &&& same_holdings(final(self).offered_resource, old(self).offered_resource)
                &&& final(self).id == old(self).id
                &&& final(self).owner == old(self).owner
            },
    {
        if owner != self.owner {
            return Err(SwapError::NotSwapOwner);
        }
        if self.status.is_cancelled {
            return Err(SwapError::Cancelled);
        }
        if self.status.is_sold {
            return Err(SwapError::BoughtByOther);
        }
        if self.status.is_took {
            return Err(SwapError::BoughtByOther);
        }
        let k = args.selected.local_id;
        if !self.offers.contains_key(&k) {
            return Err(SwapError::SelectedOfferMissing);
        }
        let ghost before = self.offers@;
        match self.offers.remove(&k) {
            None => Err(SwapError::SelectedOfferMissing),
            Some(assets) => {
                let mut assets = assets;
                let taken = assets.take();
                self.offers.insert(k, assets);
                proof {
                    assert(self.offers@ =~= before.insert(k, self.offers@[k]));
                }
                self.status.is_sold = true;
                self.selected = Some(k);
                let mut out: Vec<Assets> = Vec::new();
                out.push(taken);
                Ok(Some(out))
            },
        }
    }

    /// Why the owner cannot cancel the swap now, if it cannot.
    pub open spec fn cancel_refusal(self, owner: u64) -> Option<SwapError> {
        if owner != self.owner {
            Some(SwapError::NotSwapOwner)
        } else if self.status.is_sold {
            Some(SwapError::SoldByOther)
        } else if self.status.is_cancelled {
            Some(SwapError::Cancelled)
        } else {
            None
        }
    }

    /// The owner calls off an unsold swap and takes the offered assets back; the
    /// offers stay.
    pub fn cancel_escrow(&mut self, owner: u64) -> (r: Result<Option<Vec<Assets>>, SwapError>)
        requires
            old(self).wf(),
        ensures
            status_grows(old(self).status, final(self).status),
            final(self).wf(),
            old(self).cancel_refusal(owner) is Some ==> (r matches Err(e) && e == old(
                self,
            ).cancel_refusal(owner)->0 && *final(self) == *old(self)),
            old(self).cancel_refusal(owner) is None ==> {
                &&& r matches Ok(Some(v)) && v@.len() == 1 && gives_out(
                    v@[0],
                    old(self).offered_resource,
                )
                &&& final(self).status == Status {
                    is_sold: false,
                    is_cancelled: true,
                    is_took: old(self).status.is_took,
                }
                &&& emptied(final(self).offered_resource, old(self).offered_resource)
                &&& final(self).offers@ == old(self).offers@
                &&& final(self).selected == old(self).selected
                &&& final(self).id == old(self).id
                &&& final(self).owner == old(self).owner
            },
    {
        if owner != self.owner {
            return Err(SwapError::NotSwapOwner);
        }
        if self.status.is_sold {
            return Err(SwapError::SoldByOther);
        }
        if self.status.is_cancelled {
            return Err(SwapError::Cancelled);
        }
        self.status.is_cancelled = true;
        let offered = self.offered_resource.take();
        let mut out: Vec<Assets> = Vec::new();
        out.push(offered);
        Ok(Some(out))
    }

    /// Why an offer cannot be made now, if it cannot.
    pub open spec fn offer_refusal(self) -> Option<SwapError> {
        if self.status.is_cancelled {
            Some(SwapError::Cancelled)
        } else if self.status.is_sold || self.status.is_took {
            Some(SwapError::BoughtByOther)
        } else {
            None
        }
    }

    /// `offerer` offers `offer_assets`, which go into vaults of their own; an
    /// earlier offer of the same offerer is replaced.
    pub fn offer(&mut self, offerer: u64, offer_assets: Assets) -> (r: Result<
        Option<Vec<Assets>>,
        SwapError,
    >)
        requires
            old(self).wf(),
        ensures
            status_grows(old(self).status, final(self).status),
            final(self).wf(),
            old(self).offer_refusal() is Some ==> (r matches Err(e) && e == old(
                self,
            ).offer_refusal()->0 && *final(self) == *old(self)),
            old(self).offer_refusal() is None ==> {
                &&& r matches Ok(None)
                &&& final(self).offers@ == old(self).offers@.insert(
                    offerer,
                    final(self).offers@[offerer],
                )
                &&& holds_assets(final(self).offers@[offerer], offer_assets)
                &&& final(self).status == old(self).status
                &&& final(self).selected == old(self).selected
                &&& final(self).id == old(self).id
                &&& final(self).owner == old(self).owner
                &&& same_holdings(final(self).offered_resource, old(self).offered_resource)
            },
    {
        if self.status.is_cancelled {
            return Err(SwapError::Cancelled);
        }
        if self.status.is_sold {
            return Err(SwapError::BoughtByOther);
        }
        if self.status.is_took {
            return Err(SwapError::BoughtByOther);
        }
        self.offers.insert(offerer, AssetsAccumulator::new(offer_assets));
        Ok(None)
    }

    /// Why `offer_winner` cannot take the offered assets now, if it cannot.
    pub open spec fn withdraw_refusal(self, offer_winner: u64) -> Option<SwapError> {
        if self.selected is None {
            Some(SwapError::NoOfferSelected)
        } else if offer_winner != self.selected->0 {
            Some(SwapError::NotOfferWinner)
        } else if !self.status.is_sold {
            Some(SwapError::NotSoldYet)
        } else if self.status.is_cancelled {
            Some(SwapError::Cancelled)
        } else if self.status.is_took {
            Some(SwapError::WithdrawnByOwner)
        } else {
            None
        }
    }

    /// The chosen offerer takes the offered assets, once.
    pub fn withdraw_assets(&mut self, offer_winner: u64) -> (r: Result<
        Option<Vec<Assets>>,
        SwapError,
    >)
        requires
            old(self).wf(),
        ensures
            status_grows(old(self).status, final(self).status),
            final(self).wf(),
            old(self).withdraw_refusal(offer_winner) is Some ==> (r matches Err(e) && e == old(
                self,
            ).withdraw_refusal(offer_winner)->0 && *final(self) == *old(self)),
            old(self).withdraw_refusal(offer_winner) is None ==> {
                &&& r matches Ok(Some(v)) && v@.len() == 1 && gives_out(
                    v@[0],
                    old(self).offered_resource,
                )
                &&& final(self).status == Status {
                    is_sold: true,
                    is_cancelled: false,
                    is_took: true,
                }
                &&& emptied(final(self).offered_resource, old(self).offered_resource)
                &&& final(self).offers@ == old(self).offers@
                &&& final(self).selected == old(self).selected
                &&& final(self).id == old(self).id
                &&& final(self).owner == old(self).owner
            },
    {
        let chosen = match &self.selected {
            None => {
                return Err(SwapError::NoOfferSelected);
            },
            Some(s) => *s,
        };
        if offer_winner != chosen {
            return Err(SwapError::NotOfferWinner);
        }
        if !self.status.is_sold {
            return Err(SwapError::NotSoldYet);
        }
        if self.status.is_cancelled {
            return Err(SwapError::Cancelled);
        }
        if self.status.is_took {
            return Err(SwapError::WithdrawnByOwner);
        }
        self.status.is_took = true;
        let offered = self.offered_resource.take();
        let mut out: Vec<Assets> = Vec::new();
        out.push(offered);
        Ok(Some(out))
    }

    /// Why `offerer` cannot take its offer back now, if it cannot.
    pub open spec fn cancel_offer_refusal(self, offerer: u64) -> Option<SwapError> {
        if self.selected is None {
            Some(SwapError::NoOfferSelected)
        } else if offerer == self.selected->0 {
            Some(SwapError::OfferSelected)
        } else if !self.offers@.contains_key(offerer) {
            Some(SwapError::NotOfferer)
        } else {
            None
        }
    }

    /// Once an offer is chosen, an offerer that was not chosen takes its offer
    /// back; its record goes.
    pub fn cancel_offer(&mut self, offerer: u64) -> (r: Result<Option<Vec<Assets>>, SwapError>)
        requires
            old(self).wf(),
        ensures
            status_grows(old(self).status, final(self).status),
            final(self).wf(),
            old(self).cancel_offer_refusal(offerer) is Some ==> (r matches Err(e) && e == old(
                self,
            ).cancel_offer_refusal(offerer)->0 && *final(self) == *old(self)),
            old(self).cancel_offer_refusal(offerer) is None ==> {
                &&& r matches Ok(Some(v)) && v@.len() == 1 && gives_out(
                    v@[0],
                    old(self).offers@[offerer],
                )
                &&& final(self).offers@ == old(self).offers@.remove(offerer)
                &&& final(self).status == old(self).status
                &&& final(self).selected == old(self).selected
                &&& final(self).id == old(self).id
                &&& final(self).owner == old(self).owner
                &&& same_holdings(final(self).offered_resource, old(self).offered_resource)
            },
    {
        let chosen = match &self.selected {
            None => {
                return Err(SwapError::NoOfferSelected);
            },
            Some(s) => *s,
        };
        if offerer == chosen {
            return Err(SwapError::OfferSelected);
        }
        if !self.offers.contains_key(&offerer) {
            return Err(SwapError::NotOfferer);
        }
        match self.offers.remove(&offerer) {
            None => Err(SwapError::NotOfferer),
            Some(assets_to_take) => {
                let mut assets_to_take = assets_to_take;
                let taken = assets_to_take.take();
                let mut out: Vec<Assets> = Vec::new();
                out.push(taken);
                Ok(Some(out))
            },
        }
    }
}

} // verus!
