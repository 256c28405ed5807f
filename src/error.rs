use vstd::prelude::*;

verus! {

/// Why an operation of the market was refused.
#[derive(Debug, Clone, Copy, PartialEq, Eq, Structural)]
pub enum MarketError {
    /// The token is not known to the token ledger.
    TokenNotFound,
    /// Only the owner of the token may list it or withdraw its listing.
    NotTokenOwner,
    /// The buyer already owns the token.
    OwnToken,
    /// `buy` was asked for a token that has no listing.
    TokenNotInSale,
    /// `cancel` was asked for a token that has no listing.
    NotInSale,
    /// The payment attached to `buy` differs from the ask price.
    PriceMismatch,
    /// The native-currency payment to the seller did not go through.
    PaymentTransferFailed,
    /// A listed token may only change hands through `buy`.
    TokenInSale,
}

} // verus!
