//! Properties that hold across the operations of the library.
use vstd::prelude::*;

use crate::common::{
    drained_fts, drained_nfts, fts_left, fts_taken, kept, nfts_left, nfts_taken, serve_fts,
    serve_nfts, gives_out, holds_all, holds_assets, ArgsSimpleSwap, Assets, AssetsAccumulator,
    FungibleHolding, GlobalId, RequiredResources, Status, status_grows, closes, hands_over,
};
use crate::amount::{amount_of, lemma_amount_of, Amount};
use crate::error::SwapError;
use crate::proxy::{batch_entry, hands_out, passes_royalty, AvagoProxy, SwapCall};
use crate::swap_basic::AvagoSwapBasic;
use crate::swap_bid::{outbids, AvagoSwapBid};
use crate::swap_offer::{Args2, AvagoSwapOffer};
use crate::swap_p2p::AvagoSwapP2P;
use crate::swap_simple::AvagoSwapSimple;

verus! {

/// An id is left in a bucket exactly when the bucket held it and it was not
/// taken.
proof fn lemma_kept(b: Seq<u64>, g: Seq<u64>, x: u64)
    ensures
        b.filter(kept(g)).contains(x) <==> (b.contains(x) && !g.contains(x)),
{
    if b.filter(kept(g)).contains(x) {
        b.lemma_filter_contains_rev(kept(g), x);
        let j = choose|j: int| 0 <= j < b.filter(kept(g)).len() && b.filter(kept(g))[j] == x;
        b.lemma_filter_pred(kept(g), j);
    }
    if b.contains(x) && !g.contains(x) {
        let i = choose|i: int| 0 <= i < b.len() && b[i] == x;
        b.lemma_filter_contains(kept(g), i);
    }
}

/// Serving fungible buckets successfully means each served bucket held a
/// requested resource and at least its (non-negative) requested amount, and
/// each request is either still open or was served by one of the buckets.
proof fn lemma_serve_fts_ok(req: Map<u64, Amount>, bs: Seq<FungibleHolding>, n: nat)
    requires
        n <= bs.len(),
        serve_fts(req, bs, n) is Ok,
    ensures
        forall|i: int|
            0 <= i < n ==> req.contains_key(#[trigger] bs[i].resource) && 0
                <= req[bs[i].resource].value() <= bs[i].amount.value(),
        forall|k: u64|
            req.contains_key(k) ==> #[trigger] serve_fts(req, bs, n)->Ok_0.contains_key(k) || exists|
                i: int,
            |
                0 <= i < n && #[trigger] bs[i].resource == k,
        forall|k: u64| #[trigger]
            serve_fts(req, bs, n)->Ok_0.contains_key(k) ==> req.contains_key(k)
                && serve_fts(req, bs, n)->Ok_0[k] == req[k],
    decreases n,
{
    if n > 0 {
        let m = (n - 1) as nat;
        lemma_serve_fts_ok(req, bs, m);
        let open = serve_fts(req, bs, m)->Ok_0;
        let b = bs[m as int];
        assert(open.contains_key(b.resource));
        assert forall|k: u64| req.contains_key(k) implies #[trigger] serve_fts(
            req,
            bs,
            n,
        )->Ok_0.contains_key(k) || exists|i: int| 0 <= i < n && #[trigger] bs[i].resource == k by {
            if k == b.resource {
                assert(bs[m as int].resource == k);
            } else if !open.contains_key(k) {
                let i = choose|i: int| 0 <= i < m && #[trigger] bs[i].resource == k;
                assert(bs[i].resource == k);
            }
        }
    }
}

/// Serving non-fungible buckets successfully means each served bucket held a
/// requested resource and every id requested of it, and each request is either
/// still open or was served by one of the buckets.
proof fn lemma_serve_nfts_ok(req: Map<u64, Seq<u64>>, bs: Seq<(u64, Seq<u64>)>, n: nat)
    requires
        n <= bs.len(),
        serve_nfts(req, bs, n) is Ok,
    ensures
        forall|i: int|
            0 <= i < n ==> req.contains_key(#[trigger] bs[i].0) && holds_all(bs[i].1, req[bs[i].0]),
        forall|k: u64|
            req.contains_key(k) ==> #[trigger] serve_nfts(req, bs, n)->Ok_0.contains_key(k) || exists|
                i: int,
            |
                0 <= i < n && #[trigger] bs[i].0 == k,
        forall|k: u64| #[trigger]
            serve_nfts(req, bs, n)->Ok_0.contains_key(k) ==> req.contains_key(k)
                && serve_nfts(req, bs, n)->Ok_0[k] == req[k],
    decreases n,
{
    if n > 0 {
        let m = (n - 1) as nat;
        lemma_serve_nfts_ok(req, bs, m);
        let open = serve_nfts(req, bs, m)->Ok_0;
        let b = bs[m as int];
        assert(open.contains_key(b.0));
        assert forall|k: u64| req.contains_key(k) implies #[trigger] serve_nfts(
            req,
            bs,
            n,
        )->Ok_0.contains_key(k) || exists|i: int| 0 <= i < n && #[trigger] bs[i].0 == k by {
            if k == b.0 {
                assert(bs[m as int].0 == k);
            } else if !open.contains_key(k) {
                let i = choose|i: int| 0 <= i < m && #[trigger] bs[i].0 == k;
                assert(bs[i].0 == k);
            }
        }
    }
}

/// Paying for a swap moves assets without making or losing any: of each given
/// fungible bucket, what is taken and what is left add up to what it held,
/// neither negative; of each given non-fungible bucket, every id it held is
/// either taken or left, never both, and nothing else is taken or left.
/// Every requested resource is paid by one of the given buckets.
pub proof fn law_payment_conserves_assets(req: RequiredResources, a: Assets)
    requires
        req.refusal(a) is None,
    ensures
        req.ft_req() is Some ==> {
            let bs = a.ft()->0;
            let left = req.ft_left_of(a)->0;
            let taken = req.ft_taken_of(a)->0;
            &&& left.len() == bs.len() && taken.len() == bs.len()
            &&& forall|i: int|
                0 <= i < bs.len() ==> {
                    &&& (#[trigger] left[i]).resource == bs[i].resource
                    &&& taken[i].resource == bs[i].resource
                    &&& left[i].amount.value() + taken[i].amount.value() == bs[i].amount.value()
                    &&& left[i].amount.value() >= 0 && taken[i].amount.value() >= 0
                }
            &&& forall|k: u64|
                req.ft_req()->0.contains_key(k) ==> exists|i: int|
                    0 <= i < bs.len() && #[trigger] bs[i].resource == k
        },
        req.nft_req() is Some ==> {
            let bs = a.nft()->0;
            let left = req.nft_left_of(a)->0;
            let taken = req.nft_taken_of(a)->0;
            &&& left.len() == bs.len() && taken.len() == bs.len()
            &&& forall|i: int|
                0 <= i < bs.len() ==> (#[trigger] left[i]).0 == bs[i].0 && taken[i].0 == bs[i].0
            &&& forall|i: int, x: u64|
                #![trigger bs[i].1.contains(x)]
                #![trigger left[i].1.contains(x)]
                #![trigger taken[i].1.contains(x)]
                0 <= i < bs.len() ==> {
                    &&& (bs[i].1.contains(x) <==> (left[i].1.contains(x) || taken[i].1.contains(
                        x,
                    )))
                    &&& !(left[i].1.contains(x) && taken[i].1.contains(x))
                }
            &&& forall|k: u64|
                req.nft_req()->0.contains_key(k) ==> exists|i: int|
                    0 <= i < bs.len() && #[trigger] bs[i].0 == k
        },
{
    if req.ft_req() is Some {
        let m = req.ft_req()->0;
        let bs = a.ft()->0;
        lemma_serve_fts_ok(m, bs, bs.len());
        let left = fts_left(m, bs);
        let taken = fts_taken(m, bs);
        assert forall|i: int| 0 <= i < bs.len() implies {
            &&& (#[trigger] left[i]).resource == bs[i].resource
            &&& taken[i].resource == bs[i].resource
            &&& left[i].amount.value() + taken[i].amount.value() == bs[i].amount.value()
            &&& left[i].amount.value() >= 0 && taken[i].amount.value() >= 0
        } by {
            assert(m.contains_key(bs[i].resource));
            lemma_amount_of(bs[i].amount.value() - m[bs[i].resource].value());
        }
        assert forall|k: u64| m.contains_key(k) implies exists|i: int|
            0 <= i < bs.len() && #[trigger] bs[i].resource == k by {
            assert(!serve_fts(m, bs, bs.len())->Ok_0.contains_key(k));
        }
    }
    if req.nft_req() is Some {
        let m = req.nft_req()->0;
        let bs = a.nft()->0;
        lemma_serve_nfts_ok(m, bs, bs.len());
        let left = nfts_left(m, bs);
        let taken = nfts_taken(m, bs);
        assert forall|i: int, x: u64|
            #![trigger bs[i].1.contains(x)]
            #![trigger left[i].1.contains(x)]
            #![trigger taken[i].1.contains(x)]
            0 <= i < bs.len() implies {
            &&& (bs[i].1.contains(x) <==> (left[i].1.contains(x) || taken[i].1.contains(x)))
            &&& !(left[i].1.contains(x) && taken[i].1.contains(x))
        } by {
            assert(m.contains_key(bs[i].0));
            assert(holds_all(bs[i].1, m[bs[i].0]));
            lemma_kept(bs[i].1, m[bs[i].0], x);
        }
        assert forall|k: u64| m.contains_key(k) implies exists|i: int|
            0 <= i < bs.len() && #[trigger] bs[i].0 == k by {
            assert(!serve_nfts(m, bs, bs.len())->Ok_0.contains_key(k));
        }
    }
}

/// Filtering keeps distinct ids distinct.
proof fn lemma_filter_distinct(b: Seq<u64>, p: spec_fn(u64) -> bool)
    requires
        b.no_duplicates(),
    ensures
        b.filter(p).no_duplicates(),
    decreases b.len(),
{
    reveal(Seq::filter);
    if b.len() > 0 {
        let d = b.drop_last();
        assert(d.no_duplicates());
        lemma_filter_distinct(d, p);
        if p(b.last()) {
            if d.filter(p).contains(b.last()) {
                d.lemma_filter_contains_rev(p, b.last());
                let k = choose|k: int| 0 <= k < d.len() && d[k] == b.last();
                assert(b[k] == b[b.len() - 1]);
            }
            let f = d.filter(p).push(b.last());
            assert forall|i: int, j: int| 0 <= i < f.len() && 0 <= j < f.len() && i != j implies f[i]
                != f[j] by {
                if j == f.len() - 1 {
                    assert(d.filter(p).contains(d.filter(p)[i]));
                } else if i == f.len() - 1 {
                    assert(d.filter(p).contains(d.filter(p)[j]));
                }
            }
        }
    }
}

/// Paying keeps non-fungible ids distinct: where every given non-fungible
/// bucket and every request lists distinct ids, so do the buckets left and the
/// ids taken.
pub proof fn law_payment_keeps_ids_distinct(req: RequiredResources, a: Assets)
    requires
        req.refusal(a) is None,
        req.nft_req() is Some,
        a.ids_distinct(),
        req.ids_distinct(),
    ensures
        forall|i: int|
            0 <= i < a.nft()->0.len() ==> (#[trigger] req.nft_left_of(a)->0[i]).1.no_duplicates()
                && req.nft_taken_of(a)->0[i].1.no_duplicates(),
{
    let m = req.nft_req()->0;
    let bs = a.nft()->0;
    lemma_serve_nfts_ok(m, bs, bs.len());
    assert forall|i: int| 0 <= i < bs.len() implies (#[trigger] req.nft_left_of(a)->0[i]).1.no_duplicates()
        && req.nft_taken_of(a)->0[i].1.no_duplicates() by {
        assert(m.contains_key(bs[i].0));
        assert(bs[i].1.no_duplicates());
        lemma_filter_distinct(bs[i].1, kept(m[bs[i].0]));
    }
}

/// After a take every vault is empty, so a second take hands out nothing and
/// leaves the vaults as they were.
pub proof fn law_take_empties(fts: Seq<FungibleHolding>, nfts: Seq<(u64, Seq<u64>)>)
    ensures
        forall|i: int| 0 <= i < fts.len() ==> (#[trigger] drained_fts(fts)[i]).amount.value() == 0,
        drained_fts(drained_fts(fts)) == drained_fts(fts),
        forall|i: int| 0 <= i < nfts.len() ==> (#[trigger] drained_nfts(nfts)[i]).1.len() == 0,
        drained_nfts(drained_nfts(nfts)) == drained_nfts(nfts),
{
    assert(drained_fts(drained_fts(fts)) =~= drained_fts(fts));
    assert(drained_nfts(drained_nfts(nfts)) =~= drained_nfts(nfts));
}

/// The first take of an accumulator hands out exactly what it was made with.
pub proof fn law_accumulator_round_trip(a: Assets, acc: AssetsAccumulator, out: Assets)
    requires
        holds_assets(acc, a),
        gives_out(out, acc),
    ensures
        out.ft() == a.ft(),
        out.nft() == a.nft(),
{
}

/// A basic swap's offered assets leave it once: a sold swap can neither be
/// bought again nor cancelled, a cancelled one can neither be bought nor
/// withdrawn from, and the payment is withdrawn at most once; only the owner
/// withdraws or cancels.
pub proof fn law_basic_one_outcome(s: AvagoSwapBasic, badge: GlobalId)
    requires
        s.wf(),
    ensures
        s.status.is_sold ==> s.exchange_refusal() is Some && s.cancel_refusal(badge) is Some,
        s.status.is_cancelled ==> s.exchange_refusal() is Some && s.withdraw_refusal(badge) is Some,
        s.status.is_took ==> s.withdraw_refusal(badge) is Some,
        s.withdraw_refusal(badge) is None || s.cancel_refusal(badge) is None ==> badge == s.owner,
{
}

/// A peer-to-peer swap's offered assets leave it once: a sold swap can
/// neither be bought again nor cancelled, a cancelled one can neither be bought
/// nor withdrawn from, and the payment is withdrawn at most once; only the
/// named taker buys, and only the owner withdraws or cancels.
pub proof fn law_p2p_one_outcome(s: AvagoSwapP2P, badge: u64)
    requires
        s.wf(),
    ensures
        s.status.is_sold ==> s.exchange_refusal(badge) is Some && s.cancel_refusal(badge) is Some,
        s.status.is_cancelled ==> s.exchange_refusal(badge) is Some && s.withdraw_refusal(badge) is Some,
        s.status.is_took ==> s.withdraw_refusal(badge) is Some,
        s.exchange_refusal(badge) is None ==> badge == s.taker,
        s.withdraw_refusal(badge) is None || s.cancel_refusal(badge) is None ==> badge == s.owner,
{
}

/// A simple swap's non-fungible leaves it once: a sold swap can neither be
/// bought again nor cancelled, a cancelled one can neither be bought nor
/// withdrawn from, and the price is withdrawn at most once; only the owner
/// withdraws or cancels. What a successful
/// purchase keeps and hands back as change add up to the payment.
pub proof fn law_simple_one_outcome(s: AvagoSwapSimple, badge: u64, a: Assets)
    requires
        s.wf(),
    ensures
        s.status.is_sold ==> s.exchange_refusal(a) is Some && s.cancel_refusal(badge) is Some,
        s.status.is_cancelled ==> s.exchange_refusal(a) is Some && s.withdraw_refusal(badge) is Some,
        s.status.is_took ==> s.withdraw_refusal(badge) is Some,
        s.withdraw_refusal(badge) is None || s.cancel_refusal(badge) is None ==> badge == s.owner,
        s.exchange_refusal(a) is None ==> {
            let pay = a.ft()->0[0];
            &&& 0 <= s.price.value() < pay.amount.value()
            &&& amount_of(pay.amount.value() - s.price.value()).value() + s.price.value()
                == pay.amount.value()
        },
{
    if s.exchange_refusal(a) is None {
        let pay = a.ft()->0[0];
        lemma_amount_of(pay.amount.value() - s.price.value());
    }
}

/// An offer swap ends once: a sold swap can neither be sold again nor
/// cancelled, a cancelled one can neither be sold nor withdrawn from, and the
/// offered assets are withdrawn at most once, by the chosen offerer only.
pub proof fn law_offer_one_outcome(s: AvagoSwapOffer, owner: u64, who: u64, args: Args2)
    requires
        s.wf(),
    ensures
        s.status.is_sold ==> s.exchange_refusal(owner, args) is Some && s.cancel_refusal(owner) is Some,
        s.status.is_cancelled ==> s.exchange_refusal(owner, args) is Some && s.withdraw_refusal(who) is Some,
        s.status.is_took ==> s.withdraw_refusal(who) is Some,
        s.withdraw_refusal(who) is None ==> s.selected == Some(who),
{
}

/// An auction's bids only go up: a bid is accepted only above the highest bid
/// so far. An accepted auction is not cancelled, and a cancelled one does not
/// take bids or accept one; the offered assets are withdrawn at most once, by
/// the highest bidder only.
pub proof fn law_bid_rises(s: AvagoSwapBid, b: FungibleHolding, who: GlobalId)
    requires
        s.wf(),
    ensures
        s.bid_refusal(b) is None && s.highest_bid is Some ==> s.highest_bid->0.amount.value() < b.amount.value(),
        s.status.is_sold ==> s.cancel_refusal(s.owner) is Some && s.bid_refusal(b) is Some,
        s.status.is_cancelled ==> s.exchange_refusal(s.owner) is Some && s.bid_refusal(b) is Some,
        s.status.is_took ==> s.withdraw_refusal(who) is Some,
        s.withdraw_refusal(who) is None ==> s.highest_bid->0.non_fungible_global_id == who,
{
}

/// A bid can be taken back only if it is recorded: an auction without bid
/// records refuses to give any bid back.
pub proof fn law_bid_refund_needs_record(s: AvagoSwapBid, who: GlobalId)
    requires
        s.bidder@.len() == 0,
    ensures
        s.cancel_bid_refusal(who) is Some,
{
}

/// A registered account cannot register again; a member number is handed out
/// once, above every number before it.
pub proof fn law_register_once(p: AvagoProxy, q: AvagoProxy, account: u64)
    requires
        p.register_refusal(account) is None,
        q.users@ == p.users@.insert(account),
        q.id.member == p.id.member + 1,
    ensures
        q.register_refusal(account) == Some(SwapError::AlreadyRegistered),
        q.id.member > p.id.member,
{
}

/// An account that unregistered can register again.
pub proof fn law_unregister_frees(p: AvagoProxy, q: AvagoProxy, account: u64)
    requires
        q.users@ == p.users@.remove(account),
        q.id.member < u64::MAX,
    ensures
        q.register_refusal(account) is None,
{
}

/// The swaps of one batch get distinct numbers, in increasing order, all
/// above the counter before the batch; each puts one id of the bucket on sale,
/// so where the bucket's ids are distinct, no id goes to two swaps.
pub proof fn law_batch_numbers_distinct(
    calls: Seq<(SwapCall, ArgsSimpleSwap)>,
    style: (u64, Seq<char>),
    royalty: Amount,
    owner: u64,
    first: u128,
    asset: (u64, Seq<u64>),
    price: Amount,
)
    requires
        calls.len() == asset.1.len(),
        forall|i: int|
            0 <= i < calls.len() ==> batch_entry(
                #[trigger] calls[i],
                style,
                royalty,
                owner,
                first,
                i,
                asset,
                price,
            ),
    ensures
        forall|i: int, j: int|
            0 <= i < j < calls.len() ==> (#[trigger] calls[i]).0.swap_id < (#[trigger] calls[j]).0.swap_id,
        forall|i: int| 0 <= i < calls.len() ==> (#[trigger] calls[i]).0.swap_id > first,
        asset.1.no_duplicates() ==> forall|i: int, j: int|
            0 <= i < j < calls.len() ==> (#[trigger] calls[i]).1.asset@.1 != (
            #[trigger] calls[j]).1.asset@.1,
{
    assert forall|i: int, j: int| 0 <= i < j < calls.len() implies (#[trigger] calls[i]).0.swap_id
        < (#[trigger] calls[j]).0.swap_id by {
        assert(batch_entry(calls[i], style, royalty, owner, first, i, asset, price));
        assert(batch_entry(calls[j], style, royalty, owner, first, j, asset, price));
    }
    assert forall|i: int| 0 <= i < calls.len() implies (#[trigger] calls[i]).0.swap_id > first by {
        assert(batch_entry(calls[i], style, royalty, owner, first, i, asset, price));
    }
    if asset.1.no_duplicates() {
        assert forall|i: int, j: int| 0 <= i < j < calls.len() implies (
        #[trigger] calls[i]).1.asset@.1 != (#[trigger] calls[j]).1.asset@.1 by {
            assert(batch_entry(calls[i], style, royalty, owner, first, i, asset, price));
            assert(batch_entry(calls[j], style, royalty, owner, first, j, asset, price));
            assert(calls[i].1.asset@.1[0] == asset.1[i]);
            assert(calls[j].1.asset@.1[0] == asset.1[j]);
        }
    }
}

/// A counter that each step advances by how many numbers it hands out never
/// goes down.
proof fn lemma_counter_monotone(counters: Seq<u128>, handed: Seq<Seq<u128>>, k: int, j: int)
    requires
        counters.len() == handed.len() + 1,
        forall|m: int|
            0 <= m < handed.len() ==> counters[m + 1] == counters[m] + (#[trigger] handed[m]).len(),
        0 <= k <= j < counters.len(),
    ensures
        counters[k] <= counters[j],
    decreases j - k,
{
    if k < j {
        lemma_counter_monotone(counters, handed, k, j - 1);
        assert(counters[j] == counters[j - 1] + handed[j - 1].len());
    }
}

/// Numbers handed out one after the other by a counter that moves past them
/// come out in order (see `law_swap_numbers_in_sequence`).
proof fn lemma_numbers_in_sequence(counters: Seq<u128>, handed: Seq<Seq<u128>>)
    requires
        counters.len() == handed.len() + 1,
        forall|m: int|
            0 <= m < handed.len() ==> counters[m + 1] == counters[m] + (#[trigger] handed[m]).len(),
        forall|m: int, i: int|
            0 <= m < handed.len() && 0 <= i < handed[m].len() ==> (#[trigger] handed[m][i])
                == counters[m] + i + 1,
    ensures
        forall|m: int, i: int|
            0 <= m < handed.len() && 0 <= i < handed[m].len() ==> (#[trigger] handed[m][i])
                > counters[0],
        forall|m1: int, i1: int, m2: int, i2: int|
            0 <= m1 < m2 < handed.len() && 0 <= i1 < handed[m1].len() && 0 <= i2 < handed[m2].len()
                ==> (#[trigger] handed[m1][i1]) < (#[trigger] handed[m2][i2]),
        forall|m: int|
            0 <= m < handed.len() && (#[trigger] handed[m]).len() > 0 ==> counters[m + 1]
                == handed[m].last(),
{
    assert forall|m: int, i: int|
        0 <= m < handed.len() && 0 <= i < handed[m].len() implies (#[trigger] handed[m][i])
        > counters[0] by {
        lemma_counter_monotone(counters, handed, 0, m);
    }
    assert forall|m1: int, i1: int, m2: int, i2: int|
        0 <= m1 < m2 < handed.len() && 0 <= i1 < handed[m1].len() && 0 <= i2 < handed[m2].len()
        implies (#[trigger] handed[m1][i1]) < (#[trigger] handed[m2][i2]) by {
        lemma_counter_monotone(counters, handed, m1 + 1, m2);
        assert(counters[m1 + 1] == counters[m1] + handed[m1].len());
    }
    assert forall|m: int| 0 <= m < handed.len() && (#[trigger] handed[m]).len() > 0 implies counters[m
        + 1] == handed[m].last() by {
        assert(handed[m][handed[m].len() - 1] == counters[m] + handed[m].len());
    }
}

/// Over a run of calls on one proxy, the swap numbers come out in order and
/// are never repeated. `states[k]` is the proxy before the k-th call and
/// `handed[k]` the numbers of the swaps that call asks to create: every
/// method's contract says `hands_out` of its step (`create_swap` one number,
/// `create_multiple_swap` one per id, the others none). Then every number is
/// above the first counter, numbers of an earlier call are below those of a
/// later one, numbers within a call rise, and after a call that hands out
/// numbers the counter is its last number.
pub proof fn law_swap_numbers_in_sequence(states: Seq<AvagoProxy>, handed: Seq<Seq<u128>>)
    requires
        states.len() == handed.len() + 1,
        forall|m: int|
            0 <= m < handed.len() ==> hands_out(states[m], states[m + 1], #[trigger] handed[m]),
    ensures
        forall|m: int, i: int|
            0 <= m < handed.len() && 0 <= i < handed[m].len() ==> (#[trigger] handed[m][i])
                > states[0].id.swap,
        forall|m1: int, i1: int, m2: int, i2: int|
            0 <= m1 < m2 < handed.len() && 0 <= i1 < handed[m1].len() && 0 <= i2 < handed[m2].len()
                ==> (#[trigger] handed[m1][i1]) < (#[trigger] handed[m2][i2]),
        forall|m: int, i: int, j: int|
            0 <= m < handed.len() && 0 <= i < j < handed[m].len() ==> (#[trigger] handed[m][i])
                < (#[trigger] handed[m][j]),
        forall|m: int|
            0 <= m < handed.len() && (#[trigger] handed[m]).len() > 0 ==> states[m + 1].id.swap
                == handed[m].last(),
{
    let counters = Seq::new(states.len(), |k: int| states[k].id.swap);
    assert forall|m: int| 0 <= m < handed.len() implies counters[m + 1] == counters[m] + (
    #[trigger] handed[m]).len() by {
        assert(hands_out(states[m], states[m + 1], handed[m]));
    }
    assert forall|m: int, i: int|
        0 <= m < handed.len() && 0 <= i < handed[m].len() implies (#[trigger] handed[m][i])
        == counters[m] + i + 1 by {
        assert(hands_out(states[m], states[m + 1], handed[m]));
    }
    lemma_numbers_in_sequence(counters, handed);
    assert forall|m: int| 0 <= m < handed.len() && (#[trigger] handed[m]).len() > 0 implies states[m
        + 1].id.swap == handed[m].last() by {
        assert(counters[m + 1] == states[m + 1].id.swap);
    }
}

/// Over a run of calls on one proxy in which the service royalty is not set
/// again, every swap created is given the royalty the run started with.
/// `states[k]` is the proxy before the k-th call and `given[k]` the royalties
/// of the swaps that call asks to create: the contract of every method but
/// `change_service_royality` says `passes_royalty` of its step.
pub proof fn law_service_royalty_passed_on(states: Seq<AvagoProxy>, given: Seq<Seq<Amount>>)
    requires
        states.len() == given.len() + 1,
        forall|m: int|
            0 <= m < given.len() ==> passes_royalty(states[m], states[m + 1], #[trigger] given[m]),
    ensures
        forall|m: int, i: int|
            0 <= m < given.len() && 0 <= i < given[m].len() ==> (#[trigger] given[m][i])
                == states[0].service_royality,
        states.last().service_royality == states[0].service_royality,
{
    let royalties = Seq::new(states.len(), |k: int| states[k].service_royality);
    assert forall|m: int| 0 <= m < given.len() implies #[trigger] royalties[m + 1] == royalties[m] by {
        assert(passes_royalty(states[m], states[m + 1], given[m]));
    }
    assert forall|m: int| 0 <= m < royalties.len() implies #[trigger] royalties[m] == royalties[0] by {
        lemma_royalty_kept(royalties, given, m);
    }
    assert forall|m: int, i: int|
        0 <= m < given.len() && 0 <= i < given[m].len() implies (#[trigger] given[m][i])
        == states[0].service_royality by {
        assert(passes_royalty(states[m], states[m + 1], given[m]));
        assert(royalties[m] == states[m].service_royality);
    }
    assert(royalties[states.len() - 1] == states.last().service_royality);
}

/// Each step of such a run keeps the royalty.
proof fn lemma_royalty_kept(royalties: Seq<Amount>, given: Seq<Seq<Amount>>, m: int)
    requires
        royalties.len() == given.len() + 1,
        forall|k: int| 0 <= k < given.len() ==> #[trigger] royalties[k + 1] == royalties[k],
        0 <= m < royalties.len(),
    ensures
        royalties[m] == royalties[0],
    decreases m,
{
    if m > 0 {
        lemma_royalty_kept(royalties, given, m - 1);
        assert(royalties[(m - 1) + 1] == royalties[m - 1]);
    }
}

/// Flags that are only ever set stay set.
proof fn lemma_flags_stay(statuses: Seq<Status>, j: int, k: int)
    requires
        forall|m: int|
            0 <= m < statuses.len() - 1 ==> status_grows(statuses[m], #[trigger] statuses[m + 1]),
        0 <= j <= k < statuses.len(),
    ensures
        status_grows(statuses[j], statuses[k]),
    decreases k - j,
{
    if j < k {
        lemma_flags_stay(statuses, j, k - 1);
        assert(status_grows(statuses[k - 1], statuses[(k - 1) + 1]));
    }
}

/// Over a run of calls on one swap, of any kind, the swap ends once and hands
/// over what it keeps once. `statuses[k]` is the swap's status after the k-th
/// call (the first, after it was created); every method's contract says
/// `status_grows` of its step. Then no flag is ever cleared, at most one step
/// ends the swap (selling or cancelling it: what a successful `exchange` or
/// `cancel_escrow` does), and at most one step hands over what it keeps (what a
/// successful `withdraw_assets` does).
pub proof fn law_swap_ends_once(statuses: Seq<Status>)
    requires
        forall|m: int|
            0 <= m < statuses.len() - 1 ==> status_grows(statuses[m], #[trigger] statuses[m + 1]),
    ensures
        forall|j: int, k: int|
            0 <= j <= k < statuses.len() ==> status_grows(
                #[trigger] statuses[j],
                #[trigger] statuses[k],
            ),
        forall|j: int, k: int|
            #![trigger statuses[j], statuses[k]]
            0 <= j < k < statuses.len() - 1 ==> !(closes(statuses[j], statuses[j + 1]) && closes(
                statuses[k],
                statuses[k + 1],
            )),
        forall|j: int, k: int|
            #![trigger statuses[j], statuses[k]]
            0 <= j < k < statuses.len() - 1 ==> !(hands_over(statuses[j], statuses[j + 1])
                && hands_over(statuses[k], statuses[k + 1])),
{
    assert forall|j: int, k: int| 0 <= j <= k < statuses.len() implies status_grows(
        #[trigger] statuses[j],
        #[trigger] statuses[k],
    ) by {
        lemma_flags_stay(statuses, j, k);
    }
    assert forall|j: int, k: int| 0 <= j < k < statuses.len() - 1 implies !(closes(
        #[trigger] statuses[j],
        statuses[j + 1],
    ) && closes(#[trigger] statuses[k], statuses[k + 1])) && !(hands_over(statuses[j], statuses[j + 1])
        && hands_over(statuses[k], statuses[k + 1])) by {
        lemma_flags_stay(statuses, j + 1, k);
    }
}

/// Over a run of bids on one auction, each taken, the bids rise strictly and
/// the highest bid is always the last one. `states[k]` is the auction before
/// the k-th bid and `amounts[k]` what that bid offered; `bid`'s contract says
/// `outbids` of each successful bid.
pub proof fn law_bids_rise_over_run(states: Seq<AvagoSwapBid>, amounts: Seq<Amount>)
    requires
        states.len() == amounts.len() + 1,
        forall|m: int|
            0 <= m < amounts.len() ==> outbids(states[m], states[m + 1], #[trigger] amounts[m]),
    ensures
        forall|i: int, j: int|
            0 <= i < j < amounts.len() ==> (#[trigger] amounts[i]).value() < (
            #[trigger] amounts[j]).value(),
        forall|m: int|
            0 <= m < amounts.len() ==> ((#[trigger] states[m + 1]).highest_bid matches Some(h)
                && h.amount == amounts[m]),
{
    assert forall|i: int, j: int| 0 <= i < j < amounts.len() implies (
    #[trigger] amounts[i]).value() < (#[trigger] amounts[j]).value() by {
        lemma_bids_rise(states, amounts, i, j);
    }
    assert forall|m: int| 0 <= m < amounts.len() implies ((
    #[trigger] states[m + 1]).highest_bid matches Some(h) && h.amount == amounts[m]) by {
        assert(outbids(states[m], states[m + 1], amounts[m]));
    }
}

/// Each bid of such a run is above every earlier one.
proof fn lemma_bids_rise(states: Seq<AvagoSwapBid>, amounts: Seq<Amount>, i: int, j: int)
    requires
        states.len() == amounts.len() + 1,
        forall|m: int|
            0 <= m < amounts.len() ==> outbids(states[m], states[m + 1], #[trigger] amounts[m]),
        0 <= i < j < amounts.len(),
    ensures
        amounts[i].value() < amounts[j].value(),
    decreases j - i,
{
    assert(outbids(states[j - 1], states[j], amounts[j - 1]));
    assert(outbids(states[j], states[j + 1], amounts[j]));
    if i < j - 1 {
        lemma_bids_rise(states, amounts, i, j - 1);
    }
}

} // verus!
