use vstd::prelude::*;

verus! {

/// Why a request to the proxy or to a swap was refused. A refused request
/// changes nothing; the embedding layer aborts the transaction with the
/// message quoted on each variant.
#[derive(Clone, Copy, PartialEq, Eq, Structural, Debug)]
pub enum SwapError {
    /// "[Forbiden] : Required NFT assets": non-fungibles are requested and none were given.
    RequiredNftAssets,
    /// "[Forbiden] : Required NFT assets": fungibles are requested and none were given.
    RequiredFtAssets,
    /// "[Forbiden] : NFT is not match": a non-fungible bucket holds a resource that is not
    /// (or no longer) requested.
    NftNotMatch,
    /// "[Forbiden] : FT is not match": a fungible bucket holds a resource that is not
    /// (or no longer) requested.
    FtNotMatch,
    /// "[Forbidden] : NFT is not sufficient": a requested non-fungible resource was not given.
    NftNotSufficient,
    /// "[Forbidden] : FT is not sufficient": a requested fungible resource was not given.
    FtNotSufficient,
    /// A bucket does not hold what is taken from it (an id it lacks, an amount above
    /// its balance, a negative amount, or one finer than its resource is divided).
    BucketShort,
    /// "Contract has already been cancelled."
    Cancelled,
    /// "Contract has already been bought by other."
    BoughtByOther,
    /// "Contract hasn't already been sold by other."
    NotSoldYet,
    /// "Contract has already been sold by other."
    SoldByOther,
    /// "Contract has already been withdrawed by owner."
    WithdrawnByOwner,
    /// "You are not the owner and not allowed to withdraw"
    NotOwnerWithdraw,
    /// "You are not the owner and not allowed to cancel"
    NotOwnerCancel,
    /// "You are not the owner of this contract swap."
    NotSwapOwner,
    /// "Your id have no access to this contract."
    NoAccess,
    /// "Your bid has to be greater than current bid."
    BidTooLow,
    /// "No one has bid this contract yet."
    NoBidYet,
    /// "You are not the bid winner of this contract."
    NotBidWinner,
    /// "You are in the highest bid and can not withdraw."
    HighestBidderCannotWithdraw,
    /// "You are not bid this contract" (said to a bidder that has no recorded bid).
    NotBidder,
    /// "Selected offers is not available."
    SelectedOfferMissing,
    /// "The owner is not selected the offer contract yet."
    NoOfferSelected,
    /// "You are not the offer winner of this contract."
    NotOfferWinner,
    /// "your offer has been selected by owner contract, can not be withdrawed."
    OfferSelected,
    /// "You are not bid this contract" (said to an offerer that has no recorded offer).
    NotOfferer,
    /// No fungible bucket was given to pay with.
    PaymentMissing,
    /// "Asset Forbiden, you must pay with XRD"
    WrongPaymentResource,
    /// "You dont have enough XRD to buy"
    PaymentTooLow,
    /// "Account already registered"
    AlreadyRegistered,
    /// "Invalid Resource Address"
    InvalidBadgeResource,
    /// "Account is not registered"
    NotRegistered,
    /// "simple swap is not supported with this method"
    SimpleStyleNotSupported,
    /// "Invalid proof"
    InvalidProof,
    /// No blueprint is registered under the requested swap style.
    UnknownSwapStyle,
    /// A counter of members or swaps would pass its largest value.
    CounterOverflow,
    /// A bucket was put into a vault of another resource.
    ResourceMismatch,
    /// A vault would hold more than the largest amount this library counts.
    AmountOverflow,
    /// The royalty vault does not hold the amount asked for, or the amount is negative
    /// or finer than the vault's resource is divided.
    VaultShort,
}

} // verus!
