//! When each operation is accepted, and what it gives back, stated from its
//! inputs alone.
use vstd::prelude::*;

use crate::amount::{fits, in_range, Amount};
use crate::common::{
    merged_royalty, serve_fts, serve_nfts, Assets, FungibleHolding, RequiredResources,
};
use crate::common::{AvagoBadge, GlobalId, NonFungibleHolding};
use crate::proxy::AvagoProxy;
use crate::swap_basic::AvagoSwapBasic;
use crate::swap_bid::{has_record, AvagoSwapBid};
use crate::swap_offer::{Args2, AvagoSwapOffer};
use crate::swap_p2p::AvagoSwapP2P;
use crate::swap_simple::AvagoSwapSimple;

verus! {

/// The resources of the first `n` non-fungible buckets.
pub open spec fn nft_resources(bs: Seq<(u64, Seq<u64>)>, n: int) -> Set<u64> {
    Set::new(|k: u64| exists|i: int| 0 <= i < n && #[trigger] bs[i].0 == k)
}

/// The resources of the first `n` fungible buckets.
pub open spec fn ft_resources(bs: Seq<FungibleHolding>, n: int) -> Set<u64> {
    Set::new(|k: u64| exists|i: int| 0 <= i < n && #[trigger] bs[i].resource == k)
}

/// Each of the non-fungible buckets `bs` is of a requested resource, no two of
/// the same, and holds every id requested of it.
pub open spec fn nft_buckets_meet(req: Map<u64, Seq<u64>>, bs: Seq<(u64, Seq<u64>)>) -> bool {
    &&& forall|i: int| 0 <= i < bs.len() ==> req.contains_key(#[trigger] bs[i].0)
    &&& forall|i: int, x: u64|
        #![trigger bs[i].1.contains(x)]
        0 <= i < bs.len() && req[bs[i].0].contains(x) ==> bs[i].1.contains(x)
    &&& forall|i: int, j: int| 0 <= i < j < bs.len() ==> (#[trigger] bs[i]).0 != (#[trigger] bs[j]).0
}

/// Each of the fungible buckets `bs` is of a requested resource, no two of the
/// same, and holds the amount requested of it, which its resource can be taken
/// in.
pub open spec fn ft_buckets_meet(req: Map<u64, Amount>, bs: Seq<FungibleHolding>) -> bool {
    &&& forall|i: int| 0 <= i < bs.len() ==> req.contains_key(#[trigger] bs[i].resource)
    &&& forall|i: int|
        0 <= i < bs.len() ==> fits(req[(#[trigger] bs[i]).resource], bs[i].divisibility)
            && req[bs[i].resource].value() <= bs[i].amount.value()
    &&& forall|i: int, j: int|
        0 <= i < j < bs.len() ==> (#[trigger] bs[i]).resource != (#[trigger] bs[j]).resource
}

/// Serving non-fungible buckets that meet their requests closes exactly the
/// requests of their resources, and leaves every other request open.
pub proof fn law_serving_nfts_closes_their_requests(
    req: Map<u64, Seq<u64>>,
    bs: Seq<(u64, Seq<u64>)>,
    n: int,
)
    requires
        0 <= n <= bs.len(),
        nft_buckets_meet(req, bs),
    ensures
        serve_nfts(req, bs, n as nat) == Ok::<Map<u64, Seq<u64>>, crate::error::SwapError>(
            req.remove_keys(nft_resources(bs, n)),
        ),
    decreases n,
{
    if n == 0 {
        assert(req.remove_keys(nft_resources(bs, 0)) =~= req);
    } else {
        law_serving_nfts_closes_their_requests(req, bs, n - 1);
        let open = req.remove_keys(nft_resources(bs, n - 1));
        let b = bs[n - 1];
        assert(req.contains_key(b.0));
        assert(!nft_resources(bs, n - 1).contains(b.0)) by {
            if nft_resources(bs, n - 1).contains(b.0) {
                let i = choose|i: int| 0 <= i < n - 1 && #[trigger] bs[i].0 == b.0;
                assert(bs[i].0 != bs[n - 1].0);
            }
        }
        assert(open.contains_key(b.0));
        assert(open[b.0] == req[b.0]);
        assert forall|x: u64| open[b.0].contains(x) implies b.1.contains(x) by {
            assert(req[bs[n - 1].0].contains(x));
        }
        assert(open.remove(b.0) =~= req.remove_keys(nft_resources(bs, n))) by {
            assert forall|k: u64| nft_resources(bs, n).contains(k) <==> (nft_resources(
                bs,
                n - 1,
            ).contains(k) || k == b.0) by {
                if nft_resources(bs, n).contains(k) && k != b.0 {
                    let i = choose|i: int| 0 <= i < n && #[trigger] bs[i].0 == k;
                    assert(i < n - 1);
                }
                if nft_resources(bs, n - 1).contains(k) {
                    let i = choose|i: int| 0 <= i < n - 1 && #[trigger] bs[i].0 == k;
                    assert(bs[i].0 == k);
                }
                if k == b.0 {
                    assert(bs[n - 1].0 == k);
                }
            }
        }
    }
}

/// Serving fungible buckets that meet their requests closes exactly the
/// requests of their resources, and leaves every other request open.
pub proof fn law_serving_fts_closes_their_requests(
    req: Map<u64, Amount>,
    bs: Seq<FungibleHolding>,
    n: int,
)
    requires
        0 <= n <= bs.len(),
        ft_buckets_meet(req, bs),
    ensures
        serve_fts(req, bs, n as nat) == Ok::<Map<u64, Amount>, crate::error::SwapError>(
            req.remove_keys(ft_resources(bs, n)),
        ),
    decreases n,
{
    if n == 0 {
        assert(req.remove_keys(ft_resources(bs, 0)) =~= req);
    } else {
        law_serving_fts_closes_their_requests(req, bs, n - 1);
        let open = req.remove_keys(ft_resources(bs, n - 1));
        let b = bs[n - 1];
        assert(req.contains_key(b.resource));
        assert(!ft_resources(bs, n - 1).contains(b.resource)) by {
            if ft_resources(bs, n - 1).contains(b.resource) {
                let i = choose|i: int| 0 <= i < n - 1 && #[trigger] bs[i].resource == b.resource;
                assert(bs[i].resource != bs[n - 1].resource);
            }
        }
        assert(open.contains_key(b.resource));
        assert(open[b.resource] == req[b.resource]);
        assert(fits(req[bs[n - 1].resource], bs[n - 1].divisibility));
        assert(open.remove(b.resource) =~= req.remove_keys(ft_resources(bs, n))) by {
            assert forall|k: u64| ft_resources(bs, n).contains(k) <==> (ft_resources(
                bs,
                n - 1,
            ).contains(k) || k == b.resource) by {
                if ft_resources(bs, n).contains(k) && k != b.resource {
                    let i = choose|i: int| 0 <= i < n && #[trigger] bs[i].resource == k;
                    assert(i < n - 1);
                }
                if ft_resources(bs, n - 1).contains(k) {
                    let i = choose|i: int| 0 <= i < n - 1 && #[trigger] bs[i].resource == k;
                    assert(bs[i].resource == k);
                }
                if k == b.resource {
                    assert(bs[n - 1].resource == k);
                }
            }
        }
    }
}

/// A payment that meets every request exactly is accepted: where the given
/// buckets of each requested kind are each of a distinct requested resource,
/// hold what is requested of it, and together cover every request, the
/// payment is not refused.
pub proof fn law_exact_payment_accepted(req: RequiredResources, a: Assets)
    requires
        req.nft_req() is Some ==> {
            &&& a.nft() is Some
            &&& nft_buckets_meet(req.nft_req()->0, a.nft()->0)
            &&& forall|k: u64|
                req.nft_req()->0.contains_key(k) ==> #[trigger] nft_resources(
                    a.nft()->0,
                    a.nft()->0.len() as int,
                ).contains(k)
        },
        req.ft_req() is Some ==> {
            &&& a.ft() is Some
            &&& ft_buckets_meet(req.ft_req()->0, a.ft()->0)
            &&& forall|k: u64|
                req.ft_req()->0.contains_key(k) ==> #[trigger] ft_resources(
                    a.ft()->0,
                    a.ft()->0.len() as int,
                ).contains(k)
        },
    ensures
        req.refusal(a) is None,
{
    if req.nft_req() is Some {
        let m = req.nft_req()->0;
        let bs = a.nft()->0;
        law_serving_nfts_closes_their_requests(m, bs, bs.len() as int);
        assert(m.remove_keys(nft_resources(bs, bs.len() as int)) =~= Map::<u64, Seq<u64>>::empty());
    }
    if req.ft_req() is Some {
        let m = req.ft_req()->0;
        let bs = a.ft()->0;
        law_serving_fts_closes_their_requests(m, bs, bs.len() as int);
        assert(m.remove_keys(ft_resources(bs, bs.len() as int)) =~= Map::<u64, Amount>::empty());
    }
}

/// The accounts a royalty names; none where there is no royalty.
pub open spec fn accounts(r: Option<(Seq<u64>, Amount)>) -> Seq<u64> {
    match r {
        Some(x) => x.0,
        None => Seq::empty(),
    }
}

/// The royalty due on a sale that pays the swap's own royalty `own` and that
/// of the payment, `taken`: there is one exactly when either carries one; it
/// names the swap's accounts followed by the payment's, none dropped; its
/// amount is the swap's where the swap carries a royalty, else the payment's.
pub proof fn law_royalty_keeps_every_account(
    own: Option<(Seq<u64>, Amount)>,
    taken: Option<(Seq<u64>, Amount)>,
)
    ensures
        merged_royalty(own, taken) is Some <==> (own is Some || taken is Some),
        accounts(merged_royalty(own, taken)) == accounts(own) + accounts(taken),
        own is Some ==> (merged_royalty(own, taken)->0).1 == (own->0).1,
        own is None && taken is Some ==> (merged_royalty(own, taken)->0).1 == (taken->0).1,
{
    match own {
        Some(f) => {
            assert(accounts(own) + Seq::<u64>::empty() =~= accounts(own));
        },
        None => {
            assert(Seq::<u64>::empty() + accounts(taken) =~= accounts(taken));
        },
    }
}

/// A bid is judged against the highest bid alone: on an auction neither sold
/// nor cancelled, a bid of the vault's resource above the highest bid (or the
/// first bid) is taken wherever the vault can hold it, whatever else the vault
/// holds; a bid not above the highest bid is never taken.
pub proof fn law_bid_judged_against_highest(s: AvagoSwapBid, b: FungibleHolding)
    ensures
        (!s.status.is_cancelled && !s.status.is_sold && b.resource == s.bids_vault.resource && (
        s.highest_bid matches Some(h) ==> h.amount.value() < b.amount.value()) && in_range(
            s.bids_vault.amount.value() + b.amount.value(),
        )) ==> s.bid_refusal(b) is None,
        (s.highest_bid matches Some(h) && b.amount.value() <= h.amount.value()) ==> s.bid_refusal(
            b,
        ) is Some,
{
}

/// A simple swap is bought with a first fungible bucket of the swap's
/// resource that holds more than the price, as long as the swap is neither
/// sold, withdrawn nor cancelled and the price can be taken from the bucket;
/// nothing else decides, the service royalty least of all.
pub proof fn law_simple_purchase_accepted(s: AvagoSwapSimple, a: Assets)
    ensures
        s.exchange_refusal(a) is None <==> {
            &&& !s.status.is_cancelled && !s.status.is_sold && !s.status.is_took
            &&& a.ft() is Some && a.ft()->0.len() > 0
            &&& a.ft()->0[0].resource == s.xrd_vault.resource
            &&& a.ft()->0[0].amount.value() > s.price.value()
            &&& fits(s.price, a.ft()->0[0].divisibility)
        },
{
}

/// Whether a purchase of a simple swap is refused, and why, depends only on
/// its status, price and vault and on the payment: two swaps that agree on
/// these (whatever their service royalty, owner or asset) answer alike.
pub proof fn law_simple_purchase_ignores_royalty(s: AvagoSwapSimple, t: AvagoSwapSimple, a: Assets)
    requires
        t.status == s.status,
        t.price == s.price,
        t.xrd_vault == s.xrd_vault,
    ensures
        t.exchange_refusal(a) == s.exchange_refusal(a),
{
}

/// Once an offer is selected, every other offerer with an offer on record
/// takes it back, whatever the swap's status (withdrawn or not); nobody else
/// does.
pub proof fn law_unselected_offer_returned(s: AvagoSwapOffer, o: u64)
    ensures
        s.cancel_offer_refusal(o) is None <==> (s.selected is Some && o != s.selected->0
            && s.offers@.contains_key(o)),
{
}

/// A payment that is accepted takes exactly what is asked: from each given
/// bucket, the amount or the ids requested of its resource.
pub proof fn law_payment_takes_what_is_asked(req: RequiredResources, a: Assets)
    requires
        req.refusal(a) is None,
    ensures
        req.ft_req() is Some ==> forall|i: int|
            0 <= i < a.ft()->0.len() ==> (#[trigger] req.ft_taken_of(a)->0[i]).amount
                == req.ft_req()->0[a.ft()->0[i].resource],
        req.nft_req() is Some ==> forall|i: int|
            0 <= i < a.nft()->0.len() ==> (#[trigger] req.nft_taken_of(a)->0[i]).1
                == req.nft_req()->0[a.nft()->0[i].0],
{
}

/// Who may do what on a basic swap: anyone buys it while it is neither sold,
/// withdrawn nor cancelled; only the owner withdraws the payment, once, after
/// a sale; only the owner cancels, before any sale.
pub proof fn law_basic_access(s: AvagoSwapBasic, badge: GlobalId)
    ensures
        s.exchange_refusal() is None <==> (!s.status.is_sold && !s.status.is_cancelled
            && !s.status.is_took),
        s.withdraw_refusal(badge) is None <==> (badge == s.owner && s.status.is_sold
            && !s.status.is_cancelled && !s.status.is_took),
        s.cancel_refusal(badge) is None <==> (badge == s.owner && !s.status.is_sold
            && !s.status.is_cancelled && !s.status.is_took),
{
}

/// Who may do what on a peer-to-peer swap: only the named taker buys it, while
/// it is neither sold, withdrawn nor cancelled; only the owner withdraws the
/// payment, once, after the sale; only the owner cancels, before the sale.
pub proof fn law_p2p_access(s: AvagoSwapP2P, badge: u64)
    ensures
        s.exchange_refusal(badge) is None <==> (badge == s.taker && !s.status.is_sold
            && !s.status.is_cancelled && !s.status.is_took),
        s.withdraw_refusal(badge) is None <==> (badge == s.owner && s.status.is_sold
            && !s.status.is_cancelled && !s.status.is_took),
        s.cancel_refusal(badge) is None <==> (badge == s.owner && !s.status.is_sold
            && !s.status.is_cancelled && !s.status.is_took),
{
}

/// Who may do what on a simple swap: only the owner withdraws the price, once,
/// after the sale; only the owner cancels, before the sale.
pub proof fn law_simple_access(s: AvagoSwapSimple, badge: u64)
    ensures
        s.withdraw_refusal(badge) is None <==> (badge == s.owner && s.status.is_sold
            && !s.status.is_cancelled && !s.status.is_took),
        s.cancel_refusal(badge) is None <==> (badge == s.owner && !s.status.is_sold
            && !s.status.is_cancelled && !s.status.is_took),
{
}

/// Who may do what on an auction: only the owner accepts, once there is a bid
/// and while the auction is neither sold nor cancelled; only the owner cancels,
/// before any acceptance; only the highest bidder takes the offered assets,
/// once; a bidder other than the highest takes back a bid it has on record.
pub proof fn law_bid_access(s: AvagoSwapBid, who: GlobalId)
    ensures
        s.exchange_refusal(who) is None <==> (who == s.owner && !s.status.is_sold
            && !s.status.is_cancelled && s.highest_bid is Some),
        s.cancel_refusal(who) is None <==> (who == s.owner && !s.status.is_sold
            && !s.status.is_cancelled),
        s.withdraw_refusal(who) is None <==> (s.highest_bid is Some
            && s.highest_bid->0.non_fungible_global_id == who && !s.status.is_took),
        s.cancel_bid_refusal(who) is None <==> (s.highest_bid is Some
            && s.highest_bid->0.non_fungible_global_id != who && has_record(s.bidder@, who)),
{
}

/// Who may do what on an offer swap: anyone offers while it is neither sold,
/// withdrawn nor cancelled; only the owner selects an offer on record, then;
/// only the owner cancels, before a selection; only the selected offerer
/// takes the offered assets, once, after the selection.
pub proof fn law_offer_access(s: AvagoSwapOffer, who: u64, args: Args2)
    ensures
        s.offer_refusal() is None <==> (!s.status.is_sold && !s.status.is_cancelled
            && !s.status.is_took),
        s.exchange_refusal(who, args) is None <==> (who == s.owner && !s.status.is_sold
            && !s.status.is_cancelled && !s.status.is_took && s.offers@.contains_key(
            args.selected.local_id,
        )),
        s.cancel_refusal(who) is None <==> (who == s.owner && !s.status.is_sold
            && !s.status.is_cancelled),
        s.withdraw_refusal(who) is None <==> (s.selected == Some(who) && s.status.is_sold
            && !s.status.is_cancelled && !s.status.is_took),
{
}

/// What the proxy accepts: an account registers once, while member numbers
/// last; a badge of the proxy's resource unregisters a registered member; a
/// member's badge creates a swap of a registered style other than 0 while
/// swap numbers last, or a batch of simple swaps while numbers last for all of
/// them; royalties are taken from the vault up to what it holds with the
/// claimed ones, in amounts its resource can be taken in.
pub proof fn law_proxy_access(
    p: AvagoProxy,
    account: u64,
    badge_resource: u64,
    data: AvagoBadge,
    style: u8,
    assets: NonFungibleHolding,
    claimed: Amount,
    amount: Amount,
)
    ensures
        p.register_refusal(account) is None <==> (!p.users@.contains(account) && p.id.member
            < u64::MAX),
        p.unregister_refusal(badge_resource, data) is None <==> (badge_resource
            == p.resource_manager && p.users@.contains(data.owner)),
        p.create_swap_refusal(badge_resource, style) is None <==> (style != 0 && badge_resource
            == p.resource_manager && p.id.swap < u128::MAX && p.swap_style@.contains_key(style)),
        p.create_multiple_swap_refusal(badge_resource, assets) is None <==> (badge_resource
            == p.resource_manager && p.swap_style@.contains_key(1u8) && p.id.swap
            + assets.ids@.len() <= u128::MAX),
        p.claim_refusal(claimed, amount) is None <==> (in_range(
            p.xrd_vault.amount.value() + claimed.value(),
        ) && fits(amount, p.xrd_vault.divisibility) && amount.value()
            <= p.xrd_vault.amount.value() + claimed.value()),
{
}

} // verus!
