use vstd::prelude::*;

use crate::common::{status_grows, 
    emptied, gives_out, holds_assets, royalty_view, same_holdings, Assets, AssetsAccumulator,
    FungibleHolding, GlobalId, RoyalityData, Status,
};
use crate::amount::{amount_of, in_range, lemma_value_in_range, Amount, FULL_DIVISIBILITY};
use crate::error::SwapError;

verus! {

/// What an auction is created with: the assets offered.
#[derive(Debug)]
pub struct Args {
    pub offered_resource: Assets,
}

/// A bid: who made it and how much XRD it is.
#[derive(Clone, Copy, PartialEq, Eq, Structural, Debug)]
pub struct HighestBidder {
    pub non_fungible_global_id: GlobalId,
    pub amount: Amount,
}

/// An auction: bidders outbid each other in XRD; the owner can accept the
/// highest bid, and the highest bidder can take the offered assets.
#[derive(Debug)]
pub struct AvagoSwapBid {
    pub id: u64,
    pub status: Status,
    pub owner: GlobalId,
    pub offered_resource: AssetsAccumulator,
    pub bids_vault: FungibleHolding,
    pub bidder: Vec<HighestBidder>,
    pub highest_bid: Option<HighestBidder>,
    pub nft_royalities: Option<RoyalityData>,
    pub service_royality: Amount,
}

/// `i` is the first record of `id` among the bid records `s`.
pub open spec fn first_record(s: Seq<HighestBidder>, id: GlobalId, i: int) -> bool {
    &&& 0 <= i < s.len()
    &&& s[i].non_fungible_global_id == id
    &&& forall|j: int| 0 <= j < i ==> s[j].non_fungible_global_id != id
}

/// `id` has a bid record in `s`.
pub open spec fn has_record(s: Seq<HighestBidder>, id: GlobalId) -> bool {
    exists|i: int| 0 <= i < s.len() && s[i].non_fungible_global_id == id
}

/// What the bid records add up to.
pub open spec fn records_total(s: Seq<HighestBidder>) -> int
    decreases s.len(),
{
    if s.len() == 0 {
        0
    } else {
        records_total(s.drop_last()) + s.last().amount.value()
    }
}

/// Each bidder has at most one record.
pub open spec fn distinct_bidders(s: Seq<HighestBidder>) -> bool {
    forall|i: int, j: int|
        0 <= i < j < s.len() ==> s[i].non_fungible_global_id != s[j].non_fungible_global_id
}

/// No record is negative.
pub open spec fn records_nonnegative(s: Seq<HighestBidder>) -> bool {
    forall|i: int| 0 <= i < s.len() ==> (#[trigger] s[i]).amount.value() >= 0
}

/// Records that are not negative add up to at least any one of them.
proof fn lemma_total_nonnegative(s: Seq<HighestBidder>)
    requires
        records_nonnegative(s),
    ensures
        records_total(s) >= 0,
    decreases s.len(),
{
    if s.len() > 0 {
        assert(s.last() == s[s.len() - 1]);
        assert(records_nonnegative(s.drop_last())) by {
            assert forall|i: int| 0 <= i < s.drop_last().len() implies (
            #[trigger] s.drop_last()[i]).amount.value() >= 0 by {
                assert(s.drop_last()[i] == s[i]);
            }
        }
        lemma_total_nonnegative(s.drop_last());
    }
}

/// Removing a record takes its amount off the total, and keeps the other
/// records as they were.
proof fn lemma_total_remove(s: Seq<HighestBidder>, i: int)
    requires
        0 <= i < s.len(),
    ensures
        records_total(s.remove(i)) == records_total(s) - s[i].amount.value(),
    decreases s.len(),
{
    if i == s.len() - 1 {
        assert(s.remove(i) =~= s.drop_last());
    } else {
        lemma_total_remove(s.drop_last(), i);
        assert(s.remove(i).drop_last() =~= s.drop_last().remove(i));
        assert(s.remove(i).last() == s.last());
    }
}

/// The index of the first record of `id`, if there is one.
fn find_record(s: &Vec<HighestBidder>, id: GlobalId) -> (r: Option<usize>)
    ensures
        r is None <==> !has_record(s@, id),
        r matches Some(i) ==> first_record(s@, id, i as int),
{
    let mut i: usize = 0;
    while i < s.len()
        invariant
            i <= s.len(),
            forall|j: int| 0 <= j < i ==> s@[j].non_fungible_global_id != id,
        decreases s.len() - i,
    {
        if s[i].non_fungible_global_id == id {
            return Some(i);
        }
        i += 1;
    }
    None
}

/// A prefix of records that are not negative adds up to no more than all of
/// them, and to no less than nothing.
proof fn lemma_total_prefix(s: Seq<HighestBidder>, n: int)
    requires
        records_nonnegative(s),
        0 <= n <= s.len(),
    ensures
        0 <= records_total(s.take(n)) <= records_total(s),
    decreases s.len(),
{
    if n == s.len() {
        assert(s.take(n) =~= s);
        lemma_total_nonnegative(s);
    } else {
        let t = s.drop_last();
        assert(records_nonnegative(t)) by {
            assert forall|i: int| 0 <= i < t.len() implies (#[trigger] t[i]).amount.value()
                >= 0 by {
                assert(t[i] == s[i]);
            }
        }
        assert(s.take(n) =~= t.take(n));
        lemma_total_prefix(t, n);
        assert(s.last() == s[s.len() - 1]);
    }
}

/// Whether no bidder has two records in `s`.
fn bidders_distinct(s: &Vec<HighestBidder>) -> (r: bool)
    ensures
        r == distinct_bidders(s@),
{
    let mut x: usize = 0;
    while x < s.len()
        invariant
            x <= s.len(),
            forall|a: int, b: int|
                0 <= a < x && a < b < s@.len() ==> s@[a].non_fungible_global_id
                    != s@[b].non_fungible_global_id,
        decreases s.len() - x,
    {
        let mut y: usize = x + 1;
        while y < s.len()
            invariant
                x < s.len(),
                x + 1 <= y <= s.len(),
                forall|a: int, b: int|
                    0 <= a < x && a < b < s@.len() ==> s@[a].non_fungible_global_id
                        != s@[b].non_fungible_global_id,
                forall|b: int|
                    x < b < y ==> s@[x as int].non_fungible_global_id
                        != s@[b].non_fungible_global_id,
            decreases s.len() - y,
        {
            if s[x].non_fungible_global_id == s[y].non_fungible_global_id {
                return false;
            }
            y += 1;
        }
        x += 1;
    }
    true
}

/// A bid of `amount` is taken: it is above the highest bid before, if there
/// was one, and becomes the highest bid.
pub open spec fn outbids(before: AvagoSwapBid, after: AvagoSwapBid, amount: Amount) -> bool {
    &&& before.highest_bid matches Some(h) ==> h.amount.value() < amount.value()
    &&& after.highest_bid matches Some(h) && h.amount == amount
}

impl AvagoSwapBid {
    /// The highest bid, while it is still owed to the owner (until accepted).
    pub open spec fn pending(self) -> int {
        if !self.status.is_sold && self.highest_bid is Some {
            self.highest_bid->0.amount.value()
        } else {
            0
        }
    }

    /// The vault holds the highest bid until it is accepted, together with
    /// every recorded bid; no bid is negative; each bidder has at most one
    /// record; an accepted auction has a bid and is never cancelled.
    pub open spec fn wf(self) -> bool {
        &&& self.bids_vault.amount.value() >= 0
        &&& self.highest_bid matches Some(h) ==> h.amount.value() >= 0
        &&& records_nonnegative(self.bidder@)
        &&& distinct_bidders(self.bidder@)
        &&& self.bids_vault.amount.value() >= self.pending() + records_total(self.bidder@)
        &&& self.status.is_sold ==> self.highest_bid is Some
        &&& !(self.status.is_sold && self.status.is_cancelled)
    }

    /// Whether the auction is well formed (see `wf`).
    pub fn is_well_formed(&self) -> (r: bool)
        ensures
            r == self.wf(),
    {
        if self.bids_vault.amount.is_negative() {
            return false;
        }
        let pending = match &self.highest_bid {
            Some(h) => {
                if h.amount.is_negative() {
                    return false;
                }
                if self.status.is_sold {
                    Amount::zero()
                } else {
                    h.amount
                }
            },
            None => {
                if self.status.is_sold {
                    return false;
                }
                Amount::zero()
            },
        };
        if self.status.is_sold && self.status.is_cancelled {
            return false;
        }
        let mut total = pending;
        let mut i: usize = 0;
        assert(self.bidder@.take(0) =~= Seq::<HighestBidder>::empty());
        while i < self.bidder.len()
            invariant
                i <= self.bidder.len(),
                forall|k: int| 0 <= k < i ==> (#[trigger] self.bidder@[k]).amount.value() >= 0,
                total.value() == self.pending() + records_total(self.bidder@.take(i as int)),
                self.pending() >= 0,
                self.bids_vault.amount.value() >= 0,
            decreases self.bidder.len() - i,
        {
            if self.bidder[i].amount.is_negative() {
                return false;
            }
            assert(self.bidder@.take(i + 1).drop_last() =~= self.bidder@.take(i as int));
            total = match total.checked_add(&self.bidder[i].amount) {
                Some(t) => t,
                None => {
                    proof {
                        if records_nonnegative(self.bidder@) {
                            lemma_total_prefix(self.bidder@, i + 1);
                            lemma_value_in_range(self.bids_vault.amount);
                        }
                    }
                    return false;
                },
            };
            i += 1;
        }
        assert(self.bidder@.take(self.bidder@.len() as int) =~= self.bidder@);
        if self.bids_vault.amount.less_than(&total) {
            return false;
        }
        bidders_distinct(&self.bidder)
    }

    /// Creates the auction of `owner` for `args.offered_resource`, with bids in
    /// the resource `xrd`; `royalty` is the royalty carried by the offered assets.
    pub fn instantiate(
        service_royality: Amount,
        owner: GlobalId,
        id: u64,
        args: Args,
        royalty: Option<RoyalityData>,
        xrd: u64,
    ) -> (r: Self)
        ensures
            r.wf(),
            r.id == id,
            r.owner == owner,
            r.service_royality == service_royality,
            (r.status == Status { is_sold: false, is_cancelled: false, is_took: false }),
            r.bids_vault.resource == xrd,
            r.bids_vault.divisibility == FULL_DIVISIBILITY,
            r.bids_vault.amount.value() == 0,
            r.bidder@.len() == 0,
            (r.highest_bid is None),
            royalty_view(r.nft_royalities) == royalty_view(royalty),
            holds_assets(r.offered_resource, args.offered_resource),
    {
        AvagoSwapBid {
            id,
            service_royality,
            nft_royalities: royalty,
            owner,
            bids_vault: FungibleHolding { resource: xrd, divisibility: FULL_DIVISIBILITY, amount: Amount::zero() },
            bidder: Vec::new(),
            highest_bid: None,
            offered_resource: AssetsAccumulator::new(args.offered_resource),
            status: Status::fresh(),
        }
    }

    /// Why the owner cannot accept the highest bid now, if it cannot.
    pub open spec fn exchange_refusal(self, owner: GlobalId) -> Option<SwapError> {
        if owner != self.owner {
            Some(SwapError::NotSwapOwner)
        } else if self.status.is_cancelled {
            Some(SwapError::Cancelled)
        } else if self.status.is_sold {
            Some(SwapError::BoughtByOther)
        } else if self.highest_bid is None {
            Some(SwapError::NoBidYet)
        } else {
            None
        }
    }

    /// The owner accepts the highest bid and takes its amount out of the vault;
    /// the service royalty is due on it.
    pub fn exchange(&mut self, owner: GlobalId) -> (r: Result<
        (Option<Vec<Assets>>, Option<RoyalityData>),
        SwapError,
    >)
        requires
            old(self).wf(),
        ensures
            status_grows(old(self).status, final(self).status),
            final(self).wf(),
            old(self).exchange_refusal(owner) is Some ==> (r matches Err(e) && e == old(
                self,
            ).exchange_refusal(owner)->0 && *final(self) == *old(self)),
            old(self).exchange_refusal(owner) is None ==> {
                let h = old(self).highest_bid->0;
                &&& r matches Ok((Some(v), Some(roy))) && v@.len() == 1 && v@[0].nft() is None
                    && v@[0].ft() == Some(
                    seq![FungibleHolding { resource: old(self).bids_vault.resource, divisibility: old(self).bids_vault.divisibility, amount: h.amount }],
                ) && roy@ == (Seq::<u64>::empty(), old(self).service_royality)
                &&& final(self).status == Status {
                    is_sold: true,
                    is_cancelled: false,
                    is_took: old(self).status.is_took,
                }
                &&& final(self).bids_vault == FungibleHolding {
                    resource: old(self).bids_vault.resource,
                    divisibility: old(self).bids_vault.divisibility,
                    amount: amount_of(old(self).bids_vault.amount.value() - h.amount.value()),
                }
                &&& final(self).highest_bid == old(self).highest_bid
                &&& final(self).bidder@ == old(self).bidder@
                &&& same_holdings(final(self).offered_resource, old(self).offered_resource)
                &&& final(self).id == old(self).id
                &&& final(self).owner == old(self).owner
                &&& final(self).service_royality == old(self).service_royality
                &&& final(self).nft_royalities == old(self).nft_royalities
            },
    {
        if owner != self.owner {
            return Err(SwapError::NotSwapOwner);
        }
        if self.status.is_cancelled {
            return Err(SwapError::Cancelled);
        }
        if self.status.is_sold {
            return Err(SwapError::BoughtByOther);
        }
        let amount = match &self.highest_bid {
            None => {
                return Err(SwapError::NoBidYet);
            },
            Some(h) => h.amount,
        };
        proof {
            lemma_total_nonnegative(self.bidder@);
        }
        let rest = match self.bids_vault.amount.checked_sub(&amount) {
            None => {
                return Err(SwapError::NoBidYet);
            },
            Some(d) => d,
        };
        self.status.is_sold = true;
        self.bids_vault.amount = rest;
        let paid = FungibleHolding { resource: self.bids_vault.resource, divisibility: self.bids_vault.divisibility, amount };
        let mut fts: Vec<FungibleHolding> = Vec::new();
        fts.push(paid);
        let assets = Assets { fungible_buckets: Some(fts), non_fungible_buckets: None };
        proof {
            assert(assets.ft()->0 =~= seq![paid]);
        }
        let mut out: Vec<Assets> = Vec::new();
        out.push(assets);
        Ok((Some(out), Some(RoyalityData::service(self.service_royality))))
    }

    /// Why the owner cannot cancel the auction now, if it cannot.
    pub open spec fn cancel_refusal(self, owner: GlobalId) -> Option<SwapError> {
        if owner != self.owner {
            Some(SwapError::NotSwapOwner)
        } else if self.status.is_sold {
            Some(SwapError::SoldByOther)
        } else if self.status.is_cancelled {
            Some(SwapError::Cancelled)
        } else {
            None
        }
    }

    /// The owner calls off an auction whose bid was not accepted and takes the
    /// offered assets back; the bids stay in the vault.
    pub fn cancel_escrow(&mut self, owner: GlobalId) -> (r: Result<Option<Vec<Assets>>, SwapError>)
        requires
            old(self).wf(),
        ensures
            status_grows(old(self).status, final(self).status),
            final(self).wf(),
            old(self).cancel_refusal(owner) is Some ==> (r matches Err(e) && e == old(
                self,
            ).cancel_refusal(owner)->0 && *final(self) == *old(self)),
            old(self).cancel_refusal(owner) is None ==> {
                &&& r matches Ok(Some(v)) && v@.len() == 1 && gives_out(
                    v@[0],
                    old(self).offered_resource,
                )
                &&& final(self).status == Status {
                    is_sold: false,
                    is_cancelled: true,
                    is_took: old(self).status.is_took,
                }
                &&& emptied(final(self).offered_resource, old(self).offered_resource)
                &&& final(self).bids_vault == old(self).bids_vault
                &&& final(self).highest_bid == old(self).highest_bid
                &&& final(self).bidder@ == old(self).bidder@
                &&& final(self).id == old(self).id
                &&& final(self).owner == old(self).owner
                &&& final(self).service_royality == old(self).service_royality
                &&& final(self).nft_royalities == old(self).nft_royalities
            },
    {
        if owner != self.owner {
            return Err(SwapError::NotSwapOwner);
        }
        if self.status.is_sold {
            return Err(SwapError::SoldByOther);
        }
        if self.status.is_cancelled {
            return Err(SwapError::Cancelled);
        }
        self.status.is_cancelled = true;
        let offered = self.offered_resource.take();
        let mut out: Vec<Assets> = Vec::new();
        out.push(offered);
        Ok(Some(out))
    }

    /// Why `xrd_bucket` cannot be bid now, if it cannot: it must be above the
    /// highest bid, of the vault's resource, and the vault cannot hold more
    /// than the range of amounts.
    pub open spec fn bid_refusal(self, xrd_bucket: FungibleHolding) -> Option<SwapError> {
        if self.status.is_cancelled {
            Some(SwapError::Cancelled)
        } else if self.status.is_sold {
            Some(SwapError::BoughtByOther)
        } else if self.highest_bid matches Some(h) && !(h.amount.value()
            < xrd_bucket.amount.value()) {
            Some(SwapError::BidTooLow)
        } else if xrd_bucket.resource != self.bids_vault.resource {
            Some(SwapError::ResourceMismatch)
        } else if !in_range(self.bids_vault.amount.value() + xrd_bucket.amount.value()) {
            Some(SwapError::AmountOverflow)
        } else {
            None
        }
    }

    /// `bidder` bids what `xrd_bucket` holds, which must be more than the
    /// highest bid so far; the bucket goes into the vault and the bid becomes the
    /// highest.
    pub fn bid(&mut self, bidder: GlobalId, xrd_bucket: FungibleHolding) -> (r: Result<
        Option<Vec<Assets>>,
        SwapError,
    >)
        requires
            old(self).wf(),
            xrd_bucket.amount.value() >= 0,
        ensures
            status_grows(old(self).status, final(self).status),
            r is Ok ==> outbids(*old(self), *final(self), xrd_bucket.amount),
            final(self).wf(),
            old(self).bid_refusal(xrd_bucket) is Some ==> (r matches Err(e) && e == old(
                self,
            ).bid_refusal(xrd_bucket)->0 && *final(self) == *old(self)),
            old(self).bid_refusal(xrd_bucket) is None ==> {
                &&& r matches Ok(None)
                &&& final(self).highest_bid == Some(
                    HighestBidder { non_fungible_global_id: bidder, amount: xrd_bucket.amount },
                )
                &&& final(self).bids_vault == FungibleHolding {
                    resource: old(self).bids_vault.resource,
                    divisibility: old(self).bids_vault.divisibility,
                    amount: amount_of(
                        old(self).bids_vault.amount.value() + xrd_bucket.amount.value(),
                    ),
                }
                &&& final(self).status == old(self).status
                &&& final(self).bidder@ == old(self).bidder@
                &&& same_holdings(final(self).offered_resource, old(self).offered_resource)
                &&& final(self).id == old(self).id
                &&& final(self).owner == old(self).owner
                &&& final(self).service_royality == old(self).service_royality
                &&& final(self).nft_royalities == old(self).nft_royalities
            },
    {
        if self.status.is_cancelled {
            return Err(SwapError::Cancelled);
        }
        if self.status.is_sold {
            return Err(SwapError::BoughtByOther);
        }
        match &self.highest_bid {
            Some(highest_bidder) => {
                if !highest_bidder.amount.less_than(&xrd_bucket.amount) {
                    return Err(SwapError::BidTooLow);
                }
            },
            None => {},
        }
        if xrd_bucket.resource != self.bids_vault.resource {
            return Err(SwapError::ResourceMismatch);
        }
        let total = match self.bids_vault.amount.checked_add(&xrd_bucket.amount) {
            None => {
                return Err(SwapError::AmountOverflow);
            },
            Some(t) => t,
        };
        self.highest_bid = Some(
            HighestBidder { non_fungible_global_id: bidder, amount: xrd_bucket.amount },
        );
        self.bids_vault.amount = total;
        Ok(None)
    }

    /// Why `bid_winner` cannot take the offered assets now, if it cannot.
    pub open spec fn withdraw_refusal(self, bid_winner: GlobalId) -> Option<SwapError> {
        if self.highest_bid is None {
            Some(SwapError::NoBidYet)
        } else if bid_winner != self.highest_bid->0.non_fungible_global_id {
            Some(SwapError::NotBidWinner)
        } else if self.status.is_took {
            Some(SwapError::WithdrawnByOwner)
        } else {
            None
        }
    }

    /// The highest bidder takes the offered assets, once, with the royalty they
    /// carry.
    pub fn withdraw_assets(&mut self, bid_winner: GlobalId) -> (r: Result<
        (Option<Vec<Assets>>, Option<RoyalityData>),
        SwapError,
    >)
        requires
            old(self).wf(),
        ensures
            status_grows(old(self).status, final(self).status),
            final(self).wf(),
            old(self).withdraw_refusal(bid_winner) is Some ==> (r matches Err(e) && e == old(
                self,
            ).withdraw_refusal(bid_winner)->0 && *final(self) == *old(self)),
            old(self).withdraw_refusal(bid_winner) is None ==> {
                &&& r matches Ok((Some(v), roy)) && v@.len() == 1 && gives_out(
                    v@[0],
                    old(self).offered_resource,
                ) && royalty_view(roy) == royalty_view(old(self).nft_royalities)
                &&& final(self).status == Status {
                    is_sold: old(self).status.is_sold,
                    is_cancelled: old(self).status.is_cancelled,
                    is_took: true,
                }
                &&& final(self).nft_royalities is None
                &&& emptied(final(self).offered_resource, old(self).offered_resource)
                &&& final(self).bids_vault == old(self).bids_vault
                &&& final(self).highest_bid == old(self).highest_bid
                &&& final(self).bidder@ == old(self).bidder@
                &&& final(self).id == old(self).id
                &&& final(self).owner == old(self).owner
                &&& final(self).service_royality == old(self).service_royality
            },
    {
        let winner = match &self.highest_bid {
            None => {
                return Err(SwapError::NoBidYet);
            },
            Some(h) => h.non_fungible_global_id,
        };
        if bid_winner != winner {
            return Err(SwapError::NotBidWinner);
        }
        if self.status.is_took {
            return Err(SwapError::WithdrawnByOwner);
        }
        self.status.is_took = true;
        let offered = self.offered_resource.take();
        let royalty = self.nft_royalities.take();
        let mut out: Vec<Assets> = Vec::new();
        out.push(offered);
        Ok((Some(out), royalty))
    }

    /// Why `bidder` cannot take its bid back now, if it cannot.
    pub open spec fn cancel_bid_refusal(self, bidder: GlobalId) -> Option<SwapError> {
        if self.highest_bid is None {
            Some(SwapError::NoBidYet)
        } else if bidder == self.highest_bid->0.non_fungible_global_id {
            Some(SwapError::HighestBidderCannotWithdraw)
        } else if !has_record(self.bidder@, bidder) {
            Some(SwapError::NotBidder)
        } else {
            None
        }
    }

    /// A bidder that is not the highest takes its recorded bid back out of the
    /// vault; its record goes.
    pub fn cancel_bid(&mut self, bidder: GlobalId) -> (r: Result<Option<Vec<Assets>>, SwapError>)
        requires
            old(self).wf(),
        ensures
            status_grows(old(self).status, final(self).status),
            final(self).wf(),
            old(self).cancel_bid_refusal(bidder) is Some ==> (r matches Err(e) && e == old(
                self,
            ).cancel_bid_refusal(bidder)->0 && *final(self) == *old(self)),
            old(self).cancel_bid_refusal(bidder) is None ==> exists|i: int|
                {
                    let a = (#[trigger] old(self).bidder@[i]).amount;
                    &&& first_record(old(self).bidder@, bidder, i)
                    &&& r matches Ok(Some(v)) && v@.len() == 1 && v@[0].nft() is None
                        && v@[0].ft() == Some(
                        seq![FungibleHolding { resource: old(self).bids_vault.resource, divisibility: old(self).bids_vault.divisibility, amount: a }],
                    )
                    &&& final(self).bidder@ == old(self).bidder@.remove(i)
                    &&& final(self).bids_vault == FungibleHolding {
                        resource: old(self).bids_vault.resource,
                        divisibility: old(self).bids_vault.divisibility,
                        amount: amount_of(old(self).bids_vault.amount.value() - a.value()),
                    }
                    &&& final(self).status == old(self).status
                    &&& final(self).highest_bid == old(self).highest_bid
                    &&& same_holdings(final(self).offered_resource, old(self).offered_resource)
                    &&& final(self).id == old(self).id
                    &&& final(self).owner == old(self).owner
                    &&& final(self).service_royality == old(self).service_royality
                    &&& final(self).nft_royalities == old(self).nft_royalities
                },
    {
        let highest = match &self.highest_bid {
            None => {
                return Err(SwapError::NoBidYet);
            },
            Some(h) => h.non_fungible_global_id,
        };
        if bidder == highest {
            return Err(SwapError::HighestBidderCannotWithdraw);
        }
        let i = match find_record(&self.bidder, bidder) {
            None => {
                return Err(SwapError::NotBidder);
            },
            Some(i) => i,
        };
        let amount_to_take = self.bidder[i].amount;
        let ghost before = self.bidder@;
        proof {
            lemma_total_remove(before, i as int);
            assert(records_nonnegative(before.remove(i as int))) by {
                assert forall|k: int| 0 <= k < before.remove(i as int).len() implies (
                #[trigger] before.remove(i as int)[k]).amount.value() >= 0 by {
                    if k < i {
                        assert(before.remove(i as int)[k] == before[k]);
                    } else {
                        assert(before.remove(i as int)[k] == before[k + 1]);
                    }
                }
            }
            lemma_total_nonnegative(before.remove(i as int));
            assert(before[i as int].amount.value() >= 0);
        }
        let rest = match self.bids_vault.amount.checked_sub(&amount_to_take) {
            None => {
                return Err(SwapError::NotBidder);
            },
            Some(d) => d,
        };
        self.bidder.remove(i);
        proof {
            assert(distinct_bidders(self.bidder@)) by {
                assert forall|x: int, y: int|
                    0 <= x < y < self.bidder@.len() implies self.bidder@[x].non_fungible_global_id
                    != self.bidder@[y].non_fungible_global_id by {
                    let xx = if x < i { x } else { x + 1 };
                    let yy = if y < i { y } else { y + 1 };
                    assert(self.bidder@[x] == before[xx]);
                    assert(self.bidder@[y] == before[yy]);
                }
            }
        }
        self.bids_vault.amount = rest;
        let refund = FungibleHolding { resource: self.bids_vault.resource, divisibility: self.bids_vault.divisibility, amount: amount_to_take };
        let mut fts: Vec<FungibleHolding> = Vec::new();
        fts.push(refund);
        let assets = Assets { fungible_buckets: Some(fts), non_fungible_buckets: None };
        proof {
            assert(assets.ft()->0 =~= seq![refund]);
        }
        let mut out: Vec<Assets> = Vec::new();
        out.push(assets);
        Ok(Some(out))
    }
}

} // verus!
