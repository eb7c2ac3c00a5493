use std::collections::HashMap;
use vstd::prelude::*;

use crate::amount::{amount_of, fits, lemma_amount_of, Amount};
use crate::error::SwapError;

verus! {

broadcast use vstd::std_specs::hash::group_hash_axioms;

/// Progress flags of a swap.
#[derive(Clone, Copy, PartialEq, Eq, Structural, Debug)]
pub struct Status {
    pub is_sold: bool,
    pub is_cancelled: bool,
    pub is_took: bool,
}

impl Status {
    /// A swap that nobody has touched yet.
    pub fn fresh() -> (s: Status)
        ensures
            !s.is_sold,
            !s.is_cancelled,
            !s.is_took,
    {
        Status { is_sold: false, is_cancelled: false, is_took: false }
    }
}

/// A step of a swap sets progress flags and never clears one.
pub open spec fn status_grows(before: Status, after: Status) -> bool {
    &&& before.is_sold ==> after.is_sold
    &&& before.is_cancelled ==> after.is_cancelled
    &&& before.is_took ==> after.is_took
}

/// A step of a swap ends it: before, it was neither sold nor cancelled; after,
/// it is one of them.
pub open spec fn closes(before: Status, after: Status) -> bool {
    &&& !before.is_sold && !before.is_cancelled
    &&& after.is_sold || after.is_cancelled
}

/// A step of a swap hands out what it keeps for the seller.
pub open spec fn hands_over(before: Status, after: Status) -> bool {
    !before.is_took && after.is_took
}

/// What one fungible bucket or vault holds: a resource, named by its key, the
/// number of decimal places the resource is divided into, and an amount.
#[derive(Clone, Copy, PartialEq, Eq, Structural, Debug)]
pub struct FungibleHolding {
    pub resource: u64,
    pub divisibility: u8,
    pub amount: Amount,
}

/// What one non-fungible bucket or vault holds: a resource and the local ids of
/// its non-fungibles.
#[derive(Debug)]
pub struct NonFungibleHolding {
    pub resource: u64,
    pub ids: Vec<u64>,
}

impl View for NonFungibleHolding {
    type V = (u64, Seq<u64>);

    open spec fn view(&self) -> (u64, Seq<u64>) {
        (self.resource, self.ids@)
    }
}

/// The views of a sequence of non-fungible holdings.
pub open spec fn nf_views(v: Seq<NonFungibleHolding>) -> Seq<(u64, Seq<u64>)> {
    v.map_values(|h: NonFungibleHolding| h@)
}

/// A set of buckets handed over or handed back.
#[derive(Debug)]
pub struct Assets {
    pub fungible_buckets: Option<Vec<FungibleHolding>>,
    pub non_fungible_buckets: Option<Vec<NonFungibleHolding>>,
}

impl Assets {
    /// The fungible buckets, in order.
    pub open spec fn ft(self) -> Option<Seq<FungibleHolding>> {
        match self.fungible_buckets {
            Some(v) => Some(v@),
            None => None,
        }
    }

    /// The non-fungible buckets, in order.
    pub open spec fn nft(self) -> Option<Seq<(u64, Seq<u64>)>> {
        match self.non_fungible_buckets {
            Some(v) => Some(nf_views(v@)),
            None => None,
        }
    }

    /// No non-fungible bucket lists an id twice, as the ledger's id sets never do.
    pub open spec fn ids_distinct(self) -> bool {
        match self.nft() {
            Some(bs) => forall|i: int| 0 <= i < bs.len() ==> (#[trigger] bs[i]).1.no_duplicates(),
            None => true,
        }
    }
}

/// The view of a map from resources to requested local ids.
pub open spec fn ids_view(m: Map<u64, Vec<u64>>) -> Map<u64, Seq<u64>> {
    m.map_values(|v: Vec<u64>| v@)
}

/// What a swap asks for in return: amounts of fungible resources and ids of
/// non-fungible resources, each keyed by resource.
#[derive(Debug)]
pub struct RequiredResources {
    pub fungible_token_rs: Option<HashMap<u64, Amount>>,
    pub non_fungible_token_rs: Option<HashMap<u64, Vec<u64>>>,
}

/// `bucket` holds every id of `wanted`.
pub open spec fn holds_all(bucket: Seq<u64>, wanted: Seq<u64>) -> bool {
    forall|x: u64| wanted.contains(x) ==> bucket.contains(x)
}

/// Keeps the ids that are not in `gone`.
pub open spec fn kept(gone: Seq<u64>) -> spec_fn(u64) -> bool {
    |x: u64| !gone.contains(x)
}

/// Serves the first `n` non-fungible buckets, in order, against the requests
/// `req`: each bucket must hold a resource that is still requested and every id
/// requested of it, whose request it then closes. The result is the requests
/// left open, or the refusal at the first bucket that cannot be served.
pub open spec fn serve_nfts(req: Map<u64, Seq<u64>>, bs: Seq<(u64, Seq<u64>)>, n: nat) -> Result<
    Map<u64, Seq<u64>>,
    SwapError,
>
    decreases n,
{
    if n == 0 {
        Ok(req)
    } else {
        match serve_nfts(req, bs, (n - 1) as nat) {
            Err(e) => Err(e),
            Ok(open) => {
                let b = bs[n - 1];
                if !open.contains_key(b.0) {
                    Err(SwapError::NftNotMatch)
                } else if !holds_all(b.1, open[b.0]) {
                    Err(SwapError::BucketShort)
                } else {
                    Ok(open.remove(b.0))
                }
            },
        }
    }
}

/// Serves the first `n` fungible buckets, in order, against the requested
/// amounts `req`, as `serve_nfts` does; a bucket must hold at least the requested
/// amount, which must be one that its resource can be taken in (see `fits`).
pub open spec fn serve_fts(req: Map<u64, Amount>, bs: Seq<FungibleHolding>, n: nat) -> Result<
    Map<u64, Amount>,
    SwapError,
>
    decreases n,
{
    if n == 0 {
        Ok(req)
    } else {
        match serve_fts(req, bs, (n - 1) as nat) {
            Err(e) => Err(e),
            Ok(open) => {
                let b = bs[n - 1];
                if !open.contains_key(b.resource) {
                    Err(SwapError::FtNotMatch)
                } else if !(fits(open[b.resource], b.divisibility) && open[b.resource].value() <= b.amount.value()) {
                    Err(SwapError::BucketShort)
                } else {
                    Ok(open.remove(b.resource))
                }
            },
        }
    }
}

/// The non-fungible buckets once the requested ids are taken out of them.
pub open spec fn nfts_left(req: Map<u64, Seq<u64>>, bs: Seq<(u64, Seq<u64>)>) -> Seq<
    (u64, Seq<u64>),
> {
    bs.map_values(|b: (u64, Seq<u64>)| (b.0, b.1.filter(kept(req[b.0]))))
}

/// The requested ids, one bucket per given bucket.
pub open spec fn nfts_taken(req: Map<u64, Seq<u64>>, bs: Seq<(u64, Seq<u64>)>) -> Seq<
    (u64, Seq<u64>),
> {
    bs.map_values(|b: (u64, Seq<u64>)| (b.0, req[b.0]))
}

/// The fungible buckets once the requested amounts are taken out of them.
pub open spec fn fts_left(req: Map<u64, Amount>, bs: Seq<FungibleHolding>) -> Seq<FungibleHolding> {
    bs.map_values(
        |b: FungibleHolding|
            FungibleHolding { resource: b.resource, divisibility: b.divisibility, amount: amount_of(b.amount.value() - req[b.resource].value()) },
    )
}

/// The requested amounts, one bucket per given bucket.
pub open spec fn fts_taken(req: Map<u64, Amount>, bs: Seq<FungibleHolding>) -> Seq<FungibleHolding> {
    bs.map_values(
        |b: FungibleHolding| FungibleHolding { resource: b.resource, divisibility: b.divisibility, amount: req[b.resource] },
    )
}

/// Once a bucket cannot be served, no longer prefix can be served either.
proof fn lemma_serve_nfts_err(req: Map<u64, Seq<u64>>, bs: Seq<(u64, Seq<u64>)>, i: nat, n: nat)
    requires
        i <= n,
        serve_nfts(req, bs, i) is Err,
    ensures
        serve_nfts(req, bs, n) == serve_nfts(req, bs, i),
    decreases n - i,
{
    if i < n {
        lemma_serve_nfts_err(req, bs, i, (n - 1) as nat);
    }
}

/// The requests left open are requests of `req`, unchanged.
proof fn lemma_serve_nfts_sub(req: Map<u64, Seq<u64>>, bs: Seq<(u64, Seq<u64>)>, n: nat)
    requires
        serve_nfts(req, bs, n) is Ok,
    ensures
        forall|k: u64| #[trigger]
            serve_nfts(req, bs, n)->Ok_0.contains_key(k) ==> req.contains_key(k)
                && serve_nfts(req, bs, n)->Ok_0[k] == req[k],
    decreases n,
{
    if n > 0 {
        lemma_serve_nfts_sub(req, bs, (n - 1) as nat);
    }
}

/// Once a bucket cannot be served, no longer prefix can be served either.
proof fn lemma_serve_fts_err(req: Map<u64, Amount>, bs: Seq<FungibleHolding>, i: nat, n: nat)
    requires
        i <= n,
        serve_fts(req, bs, i) is Err,
    ensures
        serve_fts(req, bs, n) == serve_fts(req, bs, i),
    decreases n - i,
{
    if i < n {
        lemma_serve_fts_err(req, bs, i, (n - 1) as nat);
    }
}

/// The requests left open are requests of `req`, unchanged.
proof fn lemma_serve_fts_sub(req: Map<u64, Amount>, bs: Seq<FungibleHolding>, n: nat)
    requires
        serve_fts(req, bs, n) is Ok,
    ensures
        forall|k: u64| #[trigger]
            serve_fts(req, bs, n)->Ok_0.contains_key(k) ==> req.contains_key(k)
                && serve_fts(req, bs, n)->Ok_0[k] == req[k],
    decreases n,
{
    if n > 0 {
        lemma_serve_fts_sub(req, bs, (n - 1) as nat);
    }
}

/// Whether `ids` holds `id`.
fn contains_id(ids: &Vec<u64>, id: u64) -> (r: bool)
    ensures
        r == ids@.contains(id),
{
    let mut i: usize = 0;
    while i < ids.len()
        invariant
            i <= ids.len(),
            forall|j: int| 0 <= j < i ==> ids@[j] != id,
        decreases ids.len() - i,
    {
        if ids[i] == id {
            assert(ids@[i as int] == id);
            return true;
        }
        i += 1;
    }
    false
}

/// Whether `bucket` holds every id of `wanted`.
fn holds_all_ids(bucket: &Vec<u64>, wanted: &Vec<u64>) -> (r: bool)
    ensures
        r == holds_all(bucket@, wanted@),
{
    let mut i: usize = 0;
    while i < wanted.len()
        invariant
            i <= wanted.len(),
            forall|j: int| 0 <= j < i ==> bucket@.contains(#[trigger] wanted@[j]),
        decreases wanted.len() - i,
    {
        if !contains_id(bucket, wanted[i]) {
            assert(wanted@.contains(wanted@[i as int]));
            return false;
        }
        i += 1;
    }
    assert forall|x: u64| wanted@.contains(x) implies bucket@.contains(x) by {
        let j = choose|j: int| 0 <= j < wanted@.len() && wanted@[j] == x;
        assert(bucket@.contains(wanted@[j]));
    }
    true
}

/// The ids of `ids` that are not in `gone`, in order.
fn ids_without(ids: &Vec<u64>, gone: &Vec<u64>) -> (r: Vec<u64>)
    ensures
        r@ == ids@.filter(kept(gone@)),
{
    let mut r: Vec<u64> = Vec::new();
    let mut i: usize = 0;
    while i < ids.len()
        invariant
            i <= ids.len(),
            r@ == ids@.take(i as int).filter(kept(gone@)),
        decreases ids.len() - i,
    {
        let x = ids[i];
        assert(ids@.take(i + 1) == ids@.take(i as int).push(x));
        proof {
            ids@.take(i as int).lemma_filter_push(x, kept(gone@));
        }
        if !contains_id(gone, x) {
            r.push(x);
        }
        i += 1;
    }
    assert(ids@.take(ids@.len() as int) == ids@);
    r
}

/// Copies a list of ids.
fn copy_ids(ids: &Vec<u64>) -> (r: Vec<u64>)
    ensures
        r@ == ids@,
{
    let mut r: Vec<u64> = Vec::new();
    let mut i: usize = 0;
    while i < ids.len()
        invariant
            i <= ids.len(),
            r@ == ids@.take(i as int),
        decreases ids.len() - i,
    {
        r.push(ids[i]);
        i += 1;
        assert(r@ == ids@.take(i as int));
    }
    assert(ids@.take(ids@.len() as int) == ids@);
    r
}


impl RequiredResources {
    /// No request lists an id twice, as the ledger's id sets never do.
    pub open spec fn ids_distinct(self) -> bool {
        match self.nft_req() {
            Some(m) => forall|k: u64| m.contains_key(k) ==> (#[trigger] m[k]).no_duplicates(),
            None => true,
        }
    }

    /// The requested amounts, keyed by resource.
    pub open spec fn ft_req(self) -> Option<Map<u64, Amount>> {
        match self.fungible_token_rs {
            Some(m) => Some(m@),
            None => None,
        }
    }

    /// The requested local ids, keyed by resource.
    pub open spec fn nft_req(self) -> Option<Map<u64, Seq<u64>>> {
        match self.non_fungible_token_rs {
            Some(m) => Some(ids_view(m@)),
            None => None,
        }
    }

    /// Serving the non-fungible buckets of `a` against the requested ids (meant
    /// where non-fungibles are requested).
    pub open spec fn nft_outcome(self, a: Assets) -> Result<Map<u64, Seq<u64>>, SwapError> {
        match a.nft() {
            None => Err(SwapError::RequiredNftAssets),
            Some(bs) => serve_nfts(self.nft_req().unwrap(), bs, bs.len()),
        }
    }

    /// Serving the fungible buckets of `a` against the requested amounts (meant
    /// where fungibles are requested).
    pub open spec fn ft_outcome(self, a: Assets) -> Result<Map<u64, Amount>, SwapError> {
        match a.ft() {
            None => Err(SwapError::RequiredFtAssets),
            Some(bs) => serve_fts(self.ft_req().unwrap(), bs, bs.len()),
        }
    }

    /// Why `a` cannot pay for these requests, if it cannot: the non-fungibles are
    /// checked first, then the fungibles, then that no request is left open.
    pub open spec fn refusal(self, a: Assets) -> Option<SwapError> {
        if self.nft_req() is Some && self.nft_outcome(a) is Err {
            Some(self.nft_outcome(a)->Err_0)
        } else if self.ft_req() is Some && self.ft_outcome(a) is Err {
            Some(self.ft_outcome(a)->Err_0)
        } else if self.nft_req() is Some && !self.nft_outcome(a)->Ok_0.is_empty() {
            Some(SwapError::NftNotSufficient)
        } else if self.ft_req() is Some && !self.ft_outcome(a)->Ok_0.is_empty() {
            Some(SwapError::FtNotSufficient)
        } else {
            None
        }
    }

    /// The non-fungible requests once all are met: none left open.
    pub open spec fn nft_req_closed(self) -> Option<Map<u64, Seq<u64>>> {
        if self.nft_req() is Some {
            Some(Map::<u64, Seq<u64>>::empty())
        } else {
            None
        }
    }

    /// The fungible requests once all are met: none left open.
    pub open spec fn ft_req_closed(self) -> Option<Map<u64, Amount>> {
        if self.ft_req() is Some {
            Some(Map::<u64, Amount>::empty())
        } else {
            None
        }
    }

    /// The non-fungible buckets of `a` once the requested ids are taken out.
    pub open spec fn nft_left_of(self, a: Assets) -> Option<Seq<(u64, Seq<u64>)>> {
        if self.nft_req() is Some {
            Some(nfts_left(self.nft_req()->0, a.nft()->0))
        } else {
            a.nft()
        }
    }

    /// The fungible buckets of `a` once the requested amounts are taken out.
    pub open spec fn ft_left_of(self, a: Assets) -> Option<Seq<FungibleHolding>> {
        if self.ft_req() is Some {
            Some(fts_left(self.ft_req()->0, a.ft()->0))
        } else {
            a.ft()
        }
    }

    /// The requested ids taken out of `a`, one bucket per given bucket.
    pub open spec fn nft_taken_of(self, a: Assets) -> Option<Seq<(u64, Seq<u64>)>> {
        if self.nft_req() is Some {
            Some(nfts_taken(self.nft_req()->0, a.nft()->0))
        } else {
            None
        }
    }

    /// The requested amounts taken out of `a`, one bucket per given bucket.
    pub open spec fn ft_taken_of(self, a: Assets) -> Option<Seq<FungibleHolding>> {
        if self.ft_req() is Some {
            Some(fts_taken(self.ft_req()->0, a.ft()->0))
        } else {
            None
        }
    }

    /// Takes out of `required_assets` what is requested, and closes the requests.
    /// Every given bucket must hold a distinct requested resource and at least what
    /// is requested of it, and every request must be met; otherwise the refusal is
    /// returned and nothing changes. The result holds what was taken, one bucket
    /// per given bucket, for each kind (fungible, non-fungible) that is requested.
    pub fn take_needed_assets(&mut self, required_assets: &mut Assets) -> (r: Result<
        Assets,
        SwapError,
    >)
        requires
            old(self).ids_distinct(),
            old(required_assets).ids_distinct(),
        ensures
            final(self).ids_distinct(),
            final(required_assets).ids_distinct(),
            r matches Ok(t) ==> t.ids_distinct(),
            old(self).refusal(*old(required_assets)) is Some ==> {
                &&& r == Err::<Assets, SwapError>(old(self).refusal(*old(required_assets))->0)
                &&& *final(self) == *old(self)
                &&& *final(required_assets) == *old(required_assets)
            },
            old(self).refusal(*old(required_assets)) is None ==> {
                &&& r is Ok
                &&& final(self).nft_req() == old(self).nft_req_closed()
                &&& final(self).ft_req() == old(self).ft_req_closed()
                &&& final(required_assets).nft() == old(self).nft_left_of(*old(required_assets))
                &&& final(required_assets).ft() == old(self).ft_left_of(*old(required_assets))
                &&& r->Ok_0.nft() == old(self).nft_taken_of(*old(required_assets))
                &&& r->Ok_0.ft() == old(self).ft_taken_of(*old(required_assets))
            },
    {
        let nft_part = match &self.non_fungible_token_rs {
            None => None,
            Some(req) => match &required_assets.non_fungible_buckets {
                None => {
                    return Err(SwapError::RequiredNftAssets);
                },
                Some(buckets) => match serve_nft_buckets(req, buckets) {
                    Err(e) => {
                        return Err(e);
                    },
                    Ok(served) => Some(served),
                },
            },
        };
        let ft_part = match &self.fungible_token_rs {
            None => None,
            Some(req) => match &required_assets.fungible_buckets {
                None => {
                    return Err(SwapError::RequiredFtAssets);
                },
                Some(buckets) => match serve_ft_buckets(req, buckets) {
                    Err(e) => {
                        return Err(e);
                    },
                    Ok(served) => Some(served),
                },
            },
        };
        match &nft_part {
            Some(served) => {
                if !served.0.is_empty() {
                    return Err(SwapError::NftNotSufficient);
                }
            },
            None => {},
        }
        match &ft_part {
            Some(served) => {
                if !served.0.is_empty() {
                    return Err(SwapError::FtNotSufficient);
                }
            },
            None => {},
        }
        let mut taken = Assets { fungible_buckets: None, non_fungible_buckets: None };
        match nft_part {
            Some((open, left, took)) => {
                proof {
                    assert(ids_view(open@) =~= Map::<u64, Seq<u64>>::empty());
                }
                self.non_fungible_token_rs = Some(open);
                required_assets.non_fungible_buckets = Some(left);
                taken.non_fungible_buckets = Some(took);
            },
            None => {},
        }
        match ft_part {
            Some((open, left, took)) => {
                proof {
                    assert(open@ =~= Map::<u64, Amount>::empty());
                }
                self.fungible_token_rs = Some(open);
                required_assets.fungible_buckets = Some(left);
                taken.fungible_buckets = Some(took);
            },
            None => {},
        }
        proof {
            if old(self).nft_req() is Some {
                crate::laws::law_payment_keeps_ids_distinct(*old(self), *old(required_assets));
                assert(required_assets.nft() == old(self).nft_left_of(*old(required_assets)));
                assert(taken.nft() == old(self).nft_taken_of(*old(required_assets)));
                let a = *old(required_assets);
                assert forall|i: int| 0 <= i < taken.nft()->0.len() implies (
                #[trigger] taken.nft()->0[i]).1.no_duplicates() by {
                    assert(old(self).nft_left_of(a)->0[i].1.no_duplicates());
                }
            }
        }
        Ok(taken)
    }
}

/// Takes the requested ids of the bucket's resource out of it, closing that
/// request.
fn extract_nft(open: &mut HashMap<u64, Vec<u64>>, nft_bucket: &NonFungibleHolding) -> (r: Result<
    (NonFungibleHolding, NonFungibleHolding),
    SwapError,
>)
    ensures
        ({
            let o = ids_view(old(open)@);
            let k = nft_bucket.resource;
            &&& !o.contains_key(k) ==> r == Err::<
                (NonFungibleHolding, NonFungibleHolding),
                SwapError,
            >(SwapError::NftNotMatch)
            &&& o.contains_key(k) && !holds_all(nft_bucket.ids@, o[k]) ==> r == Err::<
                (NonFungibleHolding, NonFungibleHolding),
                SwapError,
            >(SwapError::BucketShort)
            &&& o.contains_key(k) && holds_all(nft_bucket.ids@, o[k]) ==> {
                &&& r matches Ok((left, took)) && left@ == (k, nft_bucket.ids@.filter(kept(o[k])))
                    && took@ == (k, o[k])
                &&& ids_view(final(open)@) == o.remove(k)
            }
        }),
{
    let ghost o = ids_view(open@);
    match open.remove(&nft_bucket.resource) {
        None => Err(SwapError::NftNotMatch),
        Some(wanted) => {
            proof {
                assert(ids_view(open@) =~= o.remove(nft_bucket.resource));
            }
            if !holds_all_ids(&nft_bucket.ids, &wanted) {
                Err(SwapError::BucketShort)
            } else {
                let left = NonFungibleHolding {
                    resource: nft_bucket.resource,
                    ids: ids_without(&nft_bucket.ids, &wanted),
                };
                let took = NonFungibleHolding { resource: nft_bucket.resource, ids: wanted };
                Ok((left, took))
            }
        },
    }
}

/// Takes the requested amount of the bucket's resource out of it, closing that
/// request.
fn extract_ft(open: &mut HashMap<u64, Amount>, ft_bucket: &FungibleHolding) -> (r: Result<
    (FungibleHolding, FungibleHolding),
    SwapError,
>)
    ensures
        ({
            let o = old(open)@;
            let k = ft_bucket.resource;
            &&& !o.contains_key(k) ==> r == Err::<(FungibleHolding, FungibleHolding), SwapError>(
                SwapError::FtNotMatch,
            )
            &&& o.contains_key(k) && !(fits(o[k], ft_bucket.divisibility) && o[k].value() <= ft_bucket.amount.value()) ==> r == Err::<
                (FungibleHolding, FungibleHolding),
                SwapError,
            >(SwapError::BucketShort)
            &&& o.contains_key(k) && fits(o[k], ft_bucket.divisibility) && o[k].value() <= ft_bucket.amount.value() ==> {
                &&& r == Ok::<(FungibleHolding, FungibleHolding), SwapError>(
                    (
                        FungibleHolding { resource: k, divisibility: ft_bucket.divisibility, amount: amount_of(ft_bucket.amount.value() - o[k].value()) },
                        FungibleHolding { resource: k, divisibility: ft_bucket.divisibility, amount: o[k] },
                    ),
                )
                &&& final(open)@ == o.remove(k)
            }
        }),
{
    match open.remove(&ft_bucket.resource) {
        None => Err(SwapError::FtNotMatch),
        Some(wanted) => {
            if !wanted.fits(ft_bucket.divisibility) || ft_bucket.amount.less_than(&wanted) {
                Err(SwapError::BucketShort)
            } else {
                let rest = match ft_bucket.amount.checked_sub(&wanted) {
                    Some(d) => d,
                    None => {
                        return Err(SwapError::BucketShort);
                    },
                };
                let left = FungibleHolding { resource: ft_bucket.resource, divisibility: ft_bucket.divisibility, amount: rest };
                let took = FungibleHolding { resource: ft_bucket.resource, divisibility: ft_bucket.divisibility, amount: wanted };
                Ok((left, took))
            }
        },
    }
}

/// Serves every non-fungible bucket, in order (see `serve_nfts`); on success the
/// result holds the requests left open, the buckets with the requested ids taken
/// out, and the requested ids.
fn serve_nft_buckets(req: &HashMap<u64, Vec<u64>>, buckets: &Vec<NonFungibleHolding>) -> (r: Result<
    (HashMap<u64, Vec<u64>>, Vec<NonFungibleHolding>, Vec<NonFungibleHolding>),
    SwapError,
>)
    ensures
        ({
            let rq = ids_view(req@);
            let bs = nf_views(buckets@);
            match serve_nfts(rq, bs, bs.len()) {
                Err(e) => r matches Err(e2) && e2 == e,
                Ok(open) => r matches Ok((m, left, took)) && ids_view(m@) == open && nf_views(left@)
                    == nfts_left(rq, bs) && nf_views(took@) == nfts_taken(rq, bs),
            }
        }),
{
    let ghost rq = ids_view(req@);
    let ghost bs = nf_views(buckets@);
    let mut open = req.clone();
    let mut left: Vec<NonFungibleHolding> = Vec::new();
    let mut took: Vec<NonFungibleHolding> = Vec::new();
    let mut i: usize = 0;
    assert(ids_view(open@) =~= rq);
    while i < buckets.len()
        invariant
            i <= buckets.len(),
            rq == ids_view(req@),
            bs == nf_views(buckets@),
            serve_nfts(rq, bs, i as nat) == Ok::<Map<u64, Seq<u64>>, SwapError>(ids_view(open@)),
            nf_views(left@) == nfts_left(rq, bs).take(i as int),
            nf_views(took@) == nfts_taken(rq, bs).take(i as int),
        decreases buckets.len() - i,
    {
        let b = &buckets[i];
        proof {
            lemma_serve_nfts_sub(rq, bs, i as nat);
            assert(bs[i as int] == b@);
        }
        let ghost o = ids_view(open@);
        match extract_nft(&mut open, b) {
            Err(e) => {
                proof {
                    lemma_serve_nfts_err(rq, bs, (i + 1) as nat, bs.len());
                }
                return Err(e);
            },
            Ok((l, t)) => {
                let ghost prev_left = left@;
                let ghost prev_took = took@;
                proof {
                    let k = b.resource;
                    assert(o.contains_key(k));
                    assert(serve_nfts(rq, bs, i as nat)->Ok_0.contains_key(k));
                    assert(o[k] == rq[k]);
                    assert(nfts_left(rq, bs)[i as int] == l@);
                    assert(nfts_taken(rq, bs)[i as int] == t@);
                }
                left.push(l);
                took.push(t);
                proof {
                    assert(nf_views(left@) =~= nf_views(prev_left).push(l@));
                    assert(nf_views(took@) =~= nf_views(prev_took).push(t@));
                    assert(nfts_left(rq, bs).take(i + 1) =~= nfts_left(rq, bs).take(i as int).push(
                        l@,
                    ));
                    assert(nfts_taken(rq, bs).take(i + 1) =~= nfts_taken(rq, bs).take(
                        i as int,
                    ).push(t@));
                }
            },
        }
        i += 1;
    }
    assert(nfts_left(rq, bs).take(bs.len() as int) =~= nfts_left(rq, bs));
    assert(nfts_taken(rq, bs).take(bs.len() as int) =~= nfts_taken(rq, bs));
    Ok((open, left, took))
}

/// Serves every fungible bucket, in order (see `serve_fts`); on success the
/// result holds the requests left open, the buckets with the requested amounts
/// taken out, and the requested amounts.
fn serve_ft_buckets(req: &HashMap<u64, Amount>, buckets: &Vec<FungibleHolding>) -> (r: Result<
    (HashMap<u64, Amount>, Vec<FungibleHolding>, Vec<FungibleHolding>),
    SwapError,
>)
    ensures
        ({
            let bs = buckets@;
            match serve_fts(req@, bs, bs.len()) {
                Err(e) => r matches Err(e2) && e2 == e,
                Ok(open) => r matches Ok((m, left, took)) && m@ == open && left@ == fts_left(
                    req@,
                    bs,
                ) && took@ == fts_taken(req@, bs),
            }
        }),
{
    let ghost bs = buckets@;
    let mut open = req.clone();
    let mut left: Vec<FungibleHolding> = Vec::new();
    let mut took: Vec<FungibleHolding> = Vec::new();
    let mut i: usize = 0;
    while i < buckets.len()
        invariant
            i <= buckets.len(),
            bs == buckets@,
            serve_fts(req@, bs, i as nat) == Ok::<Map<u64, Amount>, SwapError>(open@),
            left@ == fts_left(req@, bs).take(i as int),
            took@ == fts_taken(req@, bs).take(i as int),
        decreases buckets.len() - i,
    {
        let b = &buckets[i];
        proof {
            lemma_serve_fts_sub(req@, bs, i as nat);
        }
        let ghost o = open@;
        match extract_ft(&mut open, b) {
            Err(e) => {
                proof {
                    lemma_serve_fts_err(req@, bs, (i + 1) as nat, bs.len());
                }
                return Err(e);
            },
            Ok((l, t)) => {
                proof {
                    let k = b.resource;
                    assert(o.contains_key(k));
                    assert(serve_fts(req@, bs, i as nat)->Ok_0.contains_key(k));
                    assert(o[k] == req@[k]);
                    assert(fts_left(req@, bs)[i as int] == l);
                    assert(fts_taken(req@, bs)[i as int] == t);
                }
                left.push(l);
                took.push(t);
                proof {
                    assert(left@ =~= fts_left(req@, bs).take(i + 1));
                    assert(took@ =~= fts_taken(req@, bs).take(i + 1));
                }
            },
        }
        i += 1;
    }
    assert(fts_left(req@, bs).take(bs.len() as int) =~= fts_left(req@, bs));
    assert(fts_taken(req@, bs).take(bs.len() as int) =~= fts_taken(req@, bs));
    Ok((open, left, took))
}

/// Fungible holdings of the same resources, with nothing left in them.
pub open spec fn drained_fts(s: Seq<FungibleHolding>) -> Seq<FungibleHolding> {
    s.map_values(
        |h: FungibleHolding| FungibleHolding { resource: h.resource, divisibility: h.divisibility, amount: Amount { hi: 0, lo: 0 } },
    )
}

/// Non-fungible holdings of the same resources, with no id left in them.
pub open spec fn drained_nfts(s: Seq<(u64, Seq<u64>)>) -> Seq<(u64, Seq<u64>)> {
    s.map_values(|h: (u64, Seq<u64>)| (h.0, Seq::<u64>::empty()))
}

/// The vaults in which a swap keeps assets: one fungible vault per fungible
/// bucket put in, one non-fungible vault per non-fungible bucket.
#[derive(Debug)]
pub struct AssetsAccumulator {
    pub fungible_vault: Option<Vec<FungibleHolding>>,
    pub non_fungible_vault: Option<Vec<NonFungibleHolding>>,
}

impl AssetsAccumulator {
    /// What the fungible vaults hold, in order.
    pub open spec fn ft(self) -> Option<Seq<FungibleHolding>> {
        match self.fungible_vault {
            Some(v) => Some(v@),
            None => None,
        }
    }

    /// What the non-fungible vaults hold, in order.
    pub open spec fn nft(self) -> Option<Seq<(u64, Seq<u64>)>> {
        match self.non_fungible_vault {
            Some(v) => Some(nf_views(v@)),
            None => None,
        }
    }

    /// Puts each bucket of `assets` into a vault of its own.
    pub fn new(assets: Assets) -> (r: Self)
        ensures
            r.ft() == assets.ft(),
            r.nft() == assets.nft(),
    {
        AssetsAccumulator {
            fungible_vault: assets.fungible_buckets,
            non_fungible_vault: assets.non_fungible_buckets,
        }
    }

    /// Takes everything out of every vault, one bucket per vault; the vaults stay,
    /// empty.
    pub fn take(&mut self) -> (r: Assets)
        ensures
            r.ft() == old(self).ft(),
            r.nft() == old(self).nft(),
            final(self).ft() == (match old(self).ft() {
                Some(s) => Some(drained_fts(s)),
                None => None,
            }),
            final(self).nft() == (match old(self).nft() {
                Some(s) => Some(drained_nfts(s)),
                None => None,
            }),
    {
        let ft = self.fungible_vault.take();
        let nft = self.non_fungible_vault.take();
        self.fungible_vault = match &ft {
            Some(v) => Some(drained_ft_vaults(v)),
            None => None,
        };
        self.non_fungible_vault = match &nft {
            Some(v) => Some(drained_nft_vaults(v)),
            None => None,
        };
        Assets { fungible_buckets: ft, non_fungible_buckets: nft }
    }
}

/// The same vaults, emptied.
fn drained_ft_vaults(v: &Vec<FungibleHolding>) -> (r: Vec<FungibleHolding>)
    ensures
        r@ == drained_fts(v@),
{
    let mut r: Vec<FungibleHolding> = Vec::new();
    let mut i: usize = 0;
    while i < v.len()
        invariant
            i <= v.len(),
            r@ == drained_fts(v@).take(i as int),
        decreases v.len() - i,
    {
        r.push(FungibleHolding { resource: v[i].resource, divisibility: v[i].divisibility, amount: Amount::zero() });
        i += 1;
        assert(r@ =~= drained_fts(v@).take(i as int));
    }
    assert(drained_fts(v@).take(v@.len() as int) =~= drained_fts(v@));
    r
}

/// The same vaults, emptied.
fn drained_nft_vaults(v: &Vec<NonFungibleHolding>) -> (r: Vec<NonFungibleHolding>)
    ensures
        nf_views(r@) == drained_nfts(nf_views(v@)),
{
    let mut r: Vec<NonFungibleHolding> = Vec::new();
    let mut i: usize = 0;
    while i < v.len()
        invariant
            i <= v.len(),
            nf_views(r@) == drained_nfts(nf_views(v@)).take(i as int),
        decreases v.len() - i,
    {
        let h = NonFungibleHolding { resource: v[i].resource, ids: Vec::new() };
        let ghost prev = r@;
        r.push(h);
        i += 1;
        proof {
            assert(nf_views(r@) =~= nf_views(prev).push(h@));
            assert(nf_views(r@) =~= drained_nfts(nf_views(v@)).take(i as int));
        }
    }
    assert(drained_nfts(nf_views(v@)).take(v@.len() as int) =~= drained_nfts(nf_views(v@)));
    r
}

/// A non-fungible named across resources: the resource and the local id in it.
#[derive(Clone, Copy, PartialEq, Eq, Structural, Debug)]
pub struct GlobalId {
    pub resource: u64,
    pub local_id: u64,
}

/// The data a member badge carries: the account it was minted for.
#[derive(Clone, Copy, PartialEq, Eq, Structural, Debug)]
pub struct AvagoBadge {
    pub owner: u64,
}

/// Royalty to be paid on a sale: the accounts owed and an amount.
#[derive(Debug)]
pub struct RoyalityData {
    pub addresses: Vec<u64>,
    pub amount: Amount,
}

impl View for RoyalityData {
    type V = (Seq<u64>, Amount);

    open spec fn view(&self) -> (Seq<u64>, Amount) {
        (self.addresses@, self.amount)
    }
}

/// The view of an optional royalty.
pub open spec fn royalty_view(r: Option<RoyalityData>) -> Option<(Seq<u64>, Amount)> {
    match r {
        Some(d) => Some(d@),
        None => None,
    }
}

/// The royalty of a sale that pays `own` and `taken`: `own` extended by
/// `taken`'s accounts, or whichever of them there is.
pub open spec fn merged_royalty(own: Option<(Seq<u64>, Amount)>, taken: Option<(Seq<u64>, Amount)>) -> Option<
    (Seq<u64>, Amount),
> {
    match own {
        None => taken,
        Some(f) => match taken {
            None => Some(f),
            Some(x) => Some((f.0 + x.0, f.1)),
        },
    }
}

impl RoyalityData {
    /// The royalty of the service: an amount owed to no particular account.
    pub fn service(amount: Amount) -> (r: RoyalityData)
        ensures
            r@ == (Seq::<u64>::empty(), amount),
    {
        RoyalityData { addresses: Vec::new(), amount }
    }

    /// Adds the accounts of `other` after those of `self`; the amount stays.
    pub fn extend(&mut self, other: RoyalityData)
        ensures
            final(self)@ == (old(self).addresses@ + other.addresses@, old(self).amount),
    {
        let mut other = other;
        self.addresses.append(&mut other.addresses);
    }

    /// A copy of this royalty.
    pub fn duplicate(&self) -> (r: RoyalityData)
        ensures
            r@ == self@,
    {
        RoyalityData { addresses: copy_ids(&self.addresses), amount: self.amount }
    }
}

/// Combines the royalty a swap was created with and that of what a sale brings
/// in (see `merged_royalty`).
pub fn merge_royalties(own: Option<RoyalityData>, taken: Option<RoyalityData>) -> (r: Option<
    RoyalityData,
>)
    ensures
        royalty_view(r) == merged_royalty(royalty_view(own), royalty_view(taken)),
{
    match own {
        None => taken,
        Some(f) => {
            let mut f = f;
            match taken {
                Some(x) => {
                    f.extend(x);
                },
                None => {},
            }
            Some(f)
        },
    }
}

/// What a swap is created with: the assets offered and what is asked in return.
#[derive(Debug)]
pub struct Args {
    pub offered_resource: Assets,
    pub requested_resource: RequiredResources,
}

/// What a simple swap is created with: the non-fungible offered and its price in
/// XRD.
#[derive(Debug)]
pub struct ArgsSimpleSwap {
    pub asset: NonFungibleHolding,
    pub price: Amount,
}

/// Both accumulators hold the same buckets.
pub open spec fn same_holdings(a: AssetsAccumulator, b: AssetsAccumulator) -> bool {
    a.ft() == b.ft() && a.nft() == b.nft()
}

/// `acc` holds what `a` held.
pub open spec fn holds_assets(acc: AssetsAccumulator, a: Assets) -> bool {
    acc.ft() == a.ft() && acc.nft() == a.nft()
}

/// `a` holds what `acc` held.
pub open spec fn gives_out(a: Assets, acc: AssetsAccumulator) -> bool {
    a.ft() == acc.ft() && a.nft() == acc.nft()
}

/// `after` is `before` with every vault emptied.
pub open spec fn emptied(after: AssetsAccumulator, before: AssetsAccumulator) -> bool {
    &&& after.ft() == (match before.ft() {
        Some(s) => Some(drained_fts(s)),
        None => None,
    })
    &&& after.nft() == (match before.nft() {
        Some(s) => Some(drained_nfts(s)),
        None => None,
    })
}

} // verus!
