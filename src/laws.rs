use vstd::prelude::*;

use crate::error::MarketError;
use crate::market::{ask_outcome, buy_check, buy_outcome, cancel_outcome, price_of, transfer_guard};
use crate::types::{Balance, IdView};

verus! {

/// A token with no listing has no price, and the guard lets every transfer of it through.
pub proof fn law_unlisted_token_moves_freely(asks: Map<IdView, Balance>, id: IdView)
    requires
        !asks.contains_key(id),
    ensures
        price_of(asks, id) == None::<Balance>,
        transfer_guard(asks, id) == Ok::<(), MarketError>(()),
{
}

/// A token listed at `p` and owned by `owner` has price `p`; its owner's new ask replaces
/// the price; an ask by anyone else fails with `NotTokenOwner` and changes nothing; and the
/// guard refuses every transfer of it with `TokenInSale`.
pub proof fn law_listed_token(
    asks: Map<IdView, Balance>,
    owner: Seq<u8>,
    other: Seq<u8>,
    id: IdView,
    p: Balance,
    new_price: Balance,
)
    requires
        asks.contains_key(id),
        asks[id] == p,
        other != owner,
    ensures
        price_of(asks, id) == Some(p),
        ask_outcome(asks, Some(owner), owner, id, new_price).1 == Ok::<(), MarketError>(()),
        price_of(ask_outcome(asks, Some(owner), owner, id, new_price).0, id) == Some(new_price),
        ask_outcome(asks, Some(owner), other, id, new_price) == (
            asks,
            Err::<(), MarketError>(MarketError::NotTokenOwner),
        ),
        transfer_guard(asks, id) == Err::<(), MarketError>(MarketError::TokenInSale),
{
}

/// The owner of a token cannot buy it: `OwnToken`, whatever was paid, and nothing changes.
pub proof fn law_owner_cannot_buy(
    asks: Map<IdView, Balance>,
    owner: Seq<u8>,
    id: IdView,
    paid: Balance,
    payment_ok: bool,
)
    ensures
        buy_check(asks, Some(owner), owner, id, paid) == Err::<Balance, MarketError>(
            MarketError::OwnToken,
        ),
        buy_outcome(asks, Some(owner), owner, id, paid, payment_ok) == (
            asks,
            Err::<(), MarketError>(MarketError::OwnToken),
        ),
{
}

/// A buyer who attaches other than the ask price gets `PriceMismatch`: nothing is owed to
/// the seller, so no payment is made, and the listings stay as they were.
pub proof fn law_wrong_payment_is_refused(
    asks: Map<IdView, Balance>,
    owner: Seq<u8>,
    buyer: Seq<u8>,
    id: IdView,
    paid: Balance,
    payment_ok: bool,
)
    requires
        buyer != owner,
        asks.contains_key(id),
        paid != asks[id],
    ensures
        buy_check(asks, Some(owner), buyer, id, paid) == Err::<Balance, MarketError>(
            MarketError::PriceMismatch,
        ),
        buy_outcome(asks, Some(owner), buyer, id, paid, payment_ok) == (
            asks,
            Err::<(), MarketError>(MarketError::PriceMismatch),
        ),
{
}

/// A buyer who attaches exactly the ask price owes the seller that price; once it is paid
/// the sale succeeds, the token has no price any more and its move to the buyer passes
/// the guard.
pub proof fn law_exact_payment_buys(
    asks: Map<IdView, Balance>,
    owner: Seq<u8>,
    buyer: Seq<u8>,
    id: IdView,
)
    requires
        buyer != owner,
        asks.contains_key(id),
    ensures
        buy_check(asks, Some(owner), buyer, id, asks[id]) == Ok::<Balance, MarketError>(asks[id]),
        buy_outcome(asks, Some(owner), buyer, id, asks[id], true) == (
            asks.remove(id),
            Ok::<(), MarketError>(()),
        ),
        price_of(asks.remove(id), id) == None::<Balance>,
        transfer_guard(asks.remove(id), id) == Ok::<(), MarketError>(()),
{
}

/// The owner's `cancel` of a listed token clears the listing; of an unlisted one it fails
/// with `NotInSale`; anyone else's fails with `NotTokenOwner`; a failure changes nothing.
pub proof fn law_cancel(asks: Map<IdView, Balance>, owner: Seq<u8>, other: Seq<u8>, id: IdView)
    requires
        other != owner,
    ensures
        asks.contains_key(id) ==> cancel_outcome(asks, Some(owner), owner, id) == (
            asks.remove(id),
            Ok::<(), MarketError>(()),
        ),
        asks.contains_key(id) ==> price_of(asks.remove(id), id) == None::<Balance>,
        !asks.contains_key(id) ==> cancel_outcome(asks, Some(owner), owner, id) == (
            asks,
            Err::<(), MarketError>(MarketError::NotInSale),
        ),
        cancel_outcome(asks, Some(owner), other, id) == (
            asks,
            Err::<(), MarketError>(MarketError::NotTokenOwner),
        ),
{
}

/// Two cancels in a row by the owner: the second fails with `NotInSale` and leaves the
/// listings as the first left them.
pub proof fn law_cancel_twice(asks: Map<IdView, Balance>, owner: Seq<u8>, id: IdView)
    ensures
        ({
            let first = cancel_outcome(asks, Some(owner), owner, id);
            let second = cancel_outcome(first.0, Some(owner), owner, id);
            &&& second.1 == Err::<(), MarketError>(MarketError::NotInSale)
            &&& second.0 == first.0
            &&& !first.0.contains_key(id)
        }),
{
}

} // verus!
