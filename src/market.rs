use vstd::prelude::*;

use crate::error::MarketError;
use crate::types::{AccountId, Balance, Id, IdView, Trade};

verus! {

/// The owner that the token ledger reports, as bytes; `None` when the token does not exist.
pub open spec fn owner_view(owner: Option<AccountId>) -> Option<Seq<u8>> {
    match owner {
        Some(o) => Some(o@),
        None => None,
    }
}

/// The ask price of a token: `None` when it is not listed.
pub open spec fn price_of(asks: Map<IdView, Balance>, id: IdView) -> Option<Balance> {
    if asks.contains_key(id) {
        Some(asks[id])
    } else {
        None
    }
}

/// The check run before any change of owner: a listed token may not move.
pub open spec fn transfer_guard(asks: Map<IdView, Balance>, id: IdView) -> Result<(), MarketError> {
    if asks.contains_key(id) {
        Err(MarketError::TokenInSale)
    } else {
        Ok(())
    }
}

/// The listings and the result after `caller` asks `price` for `id`.
pub open spec fn ask_outcome(
    asks: Map<IdView, Balance>,
    owner: Option<Seq<u8>>,
    caller: Seq<u8>,
    id: IdView,
    price: Balance,
) -> (Map<IdView, Balance>, Result<(), MarketError>) {
    match owner {
        None => (asks, Err(MarketError::TokenNotFound)),
        Some(o) => if o != caller {
            (asks, Err(MarketError::NotTokenOwner))
        } else {
            (asks.insert(id, price), Ok(()))
        },
    }
}

/// The listings and the result after `caller` withdraws the listing of `id`.
pub open spec fn cancel_outcome(
    asks: Map<IdView, Balance>,
    owner: Option<Seq<u8>>,
    caller: Seq<u8>,
    id: IdView,
) -> (Map<IdView, Balance>, Result<(), MarketError>) {
    match owner {
        None => (asks, Err(MarketError::TokenNotFound)),
        Some(o) => if o != caller {
            (asks, Err(MarketError::NotTokenOwner))
        } else if !asks.contains_key(id) {
            (asks, Err(MarketError::NotInSale))
        } else {
            (asks.remove(id), Ok(()))
        },
    }
}

/// What a purchase of `id` by `caller` with `paid` attached settles to before any payment:
/// the amount owed to the seller, or the first check that fails.
pub open spec fn buy_check(
    asks: Map<IdView, Balance>,
    owner: Option<Seq<u8>>,
    caller: Seq<u8>,
    id: IdView,
    paid: Balance,
) -> Result<Balance, MarketError> {
    match owner {
        None => Err(MarketError::TokenNotFound),
        Some(o) => if o == caller {
            Err(MarketError::OwnToken)
        } else if !asks.contains_key(id) {
            Err(MarketError::TokenNotInSale)
        } else if paid != asks[id] {
            Err(MarketError::PriceMismatch)
        } else {
            Ok(asks[id])
        },
    }
}

/// The listings and the result of a purchase, given whether paying the seller went through.
pub open spec fn buy_outcome(
    asks: Map<IdView, Balance>,
    owner: Option<Seq<u8>>,
    caller: Seq<u8>,
    id: IdView,
    paid: Balance,
    payment_ok: bool,
) -> (Map<IdView, Balance>, Result<(), MarketError>) {
    match buy_check(asks, owner, caller, id, paid) {
        Err(e) => (asks, Err(e)),
        Ok(_) => if !payment_ok {
            (asks, Err(MarketError::PaymentTransferFailed))
        } else {
            (asks.remove(id), Ok(()))
        },
    }
}

spec fn keys_unique(s: Seq<(Id, Balance)>) -> bool {
    forall|i: int, j: int| 0 <= i < j < s.len() ==> s[i].0@ != s[j].0@
}

spec fn has_key(s: Seq<(Id, Balance)>, k: IdView) -> bool {
    exists|i: int| 0 <= i < s.len() && s[i].0@ == k
}

spec fn map_of(s: Seq<(Id, Balance)>) -> Map<IdView, Balance> {
    Map::new(
        |k: IdView| has_key(s, k),
        |k: IdView| s[choose|i: int| 0 <= i < s.len() && s[i].0@ == k].1,
    )
}

proof fn lemma_map_of_at(s: Seq<(Id, Balance)>, i: int)
    requires
        keys_unique(s),
        0 <= i < s.len(),
    ensures
        map_of(s).contains_key(s[i].0@),
        map_of(s)[s[i].0@] == s[i].1,
{
    let k = s[i].0@;
    assert(0 <= i < s.len() && s[i].0@ == k);
    assert(has_key(s, k));
    let j = choose|j: int| 0 <= j < s.len() && s[j].0@ == k;
    if j < i {
        assert(s[j].0@ != s[i].0@);
    } else if i < j {
        assert(s[i].0@ != s[j].0@);
    }
}

proof fn lemma_map_of_push(s: Seq<(Id, Balance)>, e: (Id, Balance))
    requires
        keys_unique(s),
        !map_of(s).contains_key(e.0@),
    ensures
        keys_unique(s.push(e)),
        map_of(s.push(e)) =~= map_of(s).insert(e.0@, e.1),
{
    let t = s.push(e);
    assert forall|i: int| 0 <= i < s.len() implies s[i].0@ != e.0@ by {
        if s[i].0@ == e.0@ {
            assert(has_key(s, e.0@));
        }
    }
    assert(keys_unique(t)) by {
        assert forall|i: int, j: int| 0 <= i < j < t.len() implies t[i].0@ != t[j].0@ by {
            if j == s.len() {
                assert(t[i] == s[i]);
            } else {
                assert(t[i] == s[i] && t[j] == s[j]);
            }
        }
    }
    assert forall|k: IdView| map_of(t).contains_key(k) <==> map_of(s).insert(e.0@, e.1).contains_key(k) by {
        if map_of(t).contains_key(k) && k != e.0@ {
            let j = choose|j: int| 0 <= j < t.len() && t[j].0@ == k;
            assert(j != s.len());
            assert(0 <= j < s.len() && s[j].0@ == k);
        }
        if map_of(s).contains_key(k) {
            let j = choose|j: int| 0 <= j < s.len() && s[j].0@ == k;
            assert(0 <= j < t.len() && t[j].0@ == k);
        }
        if k == e.0@ {
            assert(0 <= s.len() < t.len() && t[s.len() as int].0@ == k);
        }
    }
    assert forall|k: IdView| #[trigger] map_of(t).contains_key(k) implies map_of(t)[k] == map_of(s).insert(e.0@, e.1)[k] by {
        let j = choose|j: int| 0 <= j < t.len() && t[j].0@ == k;
        lemma_map_of_at(t, j);
        if j < s.len() {
            assert(t[j] == s[j]);
            lemma_map_of_at(s, j);
        }
    }
}

proof fn lemma_map_of_update(s: Seq<(Id, Balance)>, i: int, e: (Id, Balance))
    requires
        keys_unique(s),
        0 <= i < s.len(),
        e.0@ == s[i].0@,
    ensures
        keys_unique(s.update(i, e)),
        map_of(s.update(i, e)) =~= map_of(s).insert(e.0@, e.1),
{
    let t = s.update(i, e);
    assert forall|j: int| 0 <= j < s.len() implies #[trigger] t[j].0@ == s[j].0@ by {}
    assert forall|k: IdView| map_of(t).contains_key(k) <==> map_of(s).insert(e.0@, e.1).contains_key(k) by {
        if map_of(t).contains_key(k) {
            let j = choose|j: int| 0 <= j < t.len() && t[j].0@ == k;
            assert(0 <= j < s.len() && s[j].0@ == k);
        }
        if map_of(s).contains_key(k) {
            let j = choose|j: int| 0 <= j < s.len() && s[j].0@ == k;
            assert(0 <= j < t.len() && t[j].0@ == k);
        }
        if k == e.0@ {
            assert(0 <= i < t.len() && t[i].0@ == k);
        }
    }
    assert forall|k: IdView| #[trigger] map_of(t).contains_key(k) implies map_of(t)[k] == map_of(s).insert(e.0@, e.1)[k] by {
        let j = choose|j: int| 0 <= j < t.len() && t[j].0@ == k;
        lemma_map_of_at(t, j);
        if j != i {
            lemma_map_of_at(s, j);
        }
    }
}

proof fn lemma_map_of_remove(s: Seq<(Id, Balance)>, i: int)
    requires
        keys_unique(s),
        0 <= i < s.len(),
    ensures
        keys_unique(s.remove(i)),
        map_of(s.remove(i)) =~= map_of(s).remove(s[i].0@),
{
    let t = s.remove(i);
    let key = s[i].0@;
    assert forall|j: int| 0 <= j < t.len() implies #[trigger] t[j] == s[if j < i { j } else { j + 1 }] by {}
    assert(keys_unique(t)) by {
        assert forall|a: int, b: int| 0 <= a < b < t.len() implies t[a].0@ != t[b].0@ by {
            let sa = if a < i { a } else { a + 1 };
            let sb = if b < i { b } else { b + 1 };
            assert(t[a] == s[sa] && t[b] == s[sb]);
        }
    }
    assert forall|k: IdView| map_of(t).contains_key(k) <==> map_of(s).remove(key).contains_key(k) by {
        if map_of(t).contains_key(k) {
            let j = choose|j: int| 0 <= j < t.len() && t[j].0@ == k;
            let sj = if j < i { j } else { j + 1 };
            assert(t[j] == s[sj]);
            assert(0 <= sj < s.len() && s[sj].0@ == k);
            if sj < i {
                assert(s[sj].0@ != s[i].0@);
            } else {
                assert(s[i].0@ != s[sj].0@);
            }
        }
        if map_of(s).contains_key(k) && k != key {
            let j = choose|j: int| 0 <= j < s.len() && s[j].0@ == k;
            assert(j != i);
            let tj = if j < i { j } else { j - 1 };
            assert(t[tj] == s[j]);
            assert(0 <= tj < t.len() && t[tj].0@ == k);
        }
    }
    assert forall|k: IdView| #[trigger] map_of(t).contains_key(k) implies map_of(t)[k] == map_of(s).remove(key)[k] by {
        let j = choose|j: int| 0 <= j < t.len() && t[j].0@ == k;
        let sj = if j < i { j } else { j + 1 };
        assert(t[j] == s[sj]);
        lemma_map_of_at(t, j);
        lemma_map_of_at(s, sj);
    }
}

/// The listing market: for each listed token, the price its owner asks for it.
pub struct Videown {
    asks: Vec<(Id, Balance)>,
}

impl View for Videown {
    type V = Map<IdView, Balance>;

    closed spec fn view(&self) -> Map<IdView, Balance> {
        map_of(self.asks@)
    }
}

impl Videown {
    /// The listings hold at most one entry per token.
    pub closed spec fn wf(&self) -> bool {
        keys_unique(self.asks@)
    }

    /// A market with no listing.
    pub fn new() -> (r: Self)
        ensures
            r.wf(),
            r@ == Map::<IdView, Balance>::empty(),
    {
        let r = Videown { asks: Vec::new() };
        assert(r@ =~= Map::<IdView, Balance>::empty());
        r
    }

    /// The position of the listing of `id`, if any.
    fn find(&self, id: &Id) -> (r: Option<usize>)
        requires
            self.wf(),
        ensures
            match r {
                Some(i) => i < self.asks@.len() && self.asks@[i as int].0@ == id@ && self@.contains_key(id@)
                    && self@[id@] == self.asks@[i as int].1,
                None => !self@.contains_key(id@),
            },
    {
        let mut i: usize = 0;
        while i < self.asks.len()
            invariant
                0 <= i <= self.asks@.len(),
                self.wf(),
                forall|j: int| 0 <= j < i ==> self.asks@[j].0@ != id@,
            decreases self.asks@.len() - i,
        {
            if self.asks[i].0.same_as(id) {
                proof {
                    lemma_map_of_at(self.asks@, i as int);
                }
                return Some(i);
            }
            i = i + 1;
        }
        proof {
            if self@.contains_key(id@) {
                let j = choose|j: int| 0 <= j < self.asks@.len() && self.asks@[j].0@ == id@;
                assert(self.asks@[j].0@ != id@);
            }
        }
        None
    }

    /// The ask price of `id`, or `None` when it is not listed.
    pub fn price(&self, id: &Id) -> (r: Option<Balance>)
        requires
            self.wf(),
        ensures
            r == price_of(self@, id@),
    {
        match self.find(id) {
            Some(i) => Some(self.asks[i].1),
            None => None,
        }
    }
    /// The check run before the token ledger moves `id` by any path: it refuses while
    /// the token is listed.
    pub fn before_token_transfer(&self, id: &Id) -> (r: Result<(), MarketError>)
        requires
            self.wf(),
        ensures
            r == transfer_guard(self@, id@),
    {
        match self.find(id) {
            Some(_) => Err(MarketError::TokenInSale),
            None => Ok(()),
        }
    }

    /// Lists `id` at `price` on behalf of `caller`, replacing an earlier price.
    /// `owner` is the ledger's answer for `id`: its owner, or `None` when it does not exist.
    pub fn ask(&mut self, owner: Option<AccountId>, caller: AccountId, id: Id, price: Balance) -> (r:
        Result<(), MarketError>)
        requires
            old(self).wf(),
        ensures
            final(self).wf(),
            (final(self)@, r) == ask_outcome(old(self)@, owner_view(owner), caller@, id@, price),
    {
        let o = match owner {
            None => return Err(MarketError::TokenNotFound),
            Some(o) => o,
        };
        if !o.same_as(&caller) {
            return Err(MarketError::NotTokenOwner);
        }
        self.set_price(id, price);
        Ok(())
    }

    /// Records `price` for `id`, with no check of ownership: how stored listings are
    /// loaded back into a market.
    pub fn set_price(&mut self, id: Id, price: Balance)
        requires
            old(self).wf(),
        ensures
            final(self).wf(),
            final(self)@ == old(self)@.insert(id@, price),
    {
        match self.find(&id) {
            Some(i) => {
                proof {
                    lemma_map_of_update(self.asks@, i as int, (id, price));
                }
                self.asks.set(i, (id, price));
            },
            None => {
                proof {
                    lemma_map_of_push(self.asks@, (id, price));
                }
                self.asks.push((id, price));
            },
        }
    }

    /// Hands out the listings as pairs of token and price, one pair per listed token.
    pub fn take_listings(self) -> (r: Vec<(Id, Balance)>)
        requires
            self.wf(),
        ensures
            forall|i: int, j: int| 0 <= i < j < r@.len() ==> r@[i].0@ != r@[j].0@,
            forall|i: int|
                0 <= i < r@.len() ==> self@.contains_key(#[trigger] r@[i].0@) && self@[r@[i].0@]
                    == r@[i].1,
            forall|k: IdView|
                self@.contains_key(k) ==> exists|i: int| 0 <= i < r@.len() && #[trigger] r@[i].0@ == k,
    {
        proof {
            assert forall|i: int| 0 <= i < self.asks@.len() implies self@.contains_key(
                #[trigger] self.asks@[i].0@,
            ) && self@[self.asks@[i].0@] == self.asks@[i].1 by {
                lemma_map_of_at(self.asks@, i);
            }
        }
        self.asks
    }

    /// Withdraws the listing of `id` on behalf of `caller`.
    /// `owner` is the ledger's answer for `id`: its owner, or `None` when it does not exist.
    pub fn cancel(&mut self, owner: Option<AccountId>, caller: AccountId, id: &Id) -> (r: Result<
        (),
        MarketError,
    >)
        requires
            old(self).wf(),
        ensures
            final(self).wf(),
            (final(self)@, r) == cancel_outcome(old(self)@, owner_view(owner), caller@, id@),
    {
        let o = match owner {
            None => return Err(MarketError::TokenNotFound),
            Some(o) => o,
        };
        if !o.same_as(&caller) {
            return Err(MarketError::NotTokenOwner);
        }
        match self.find(id) {
            Some(i) => {
                proof {
                    lemma_map_of_remove(self.asks@, i as int);
                }
                self.asks.remove(i);
                Ok(())
            },
            None => Err(MarketError::NotInSale),
        }
    }

    /// Decides whether `caller` may buy `id` with `transferred` attached, without changing
    /// anything: on success, the amount to pay the seller before calling `buy`.
    pub fn check_buy(&self, owner: Option<AccountId>, caller: AccountId, id: &Id, transferred: Balance) -> (r:
        Result<Balance, MarketError>)
        requires
            self.wf(),
        ensures
            r == buy_check(self@, owner_view(owner), caller@, id@, transferred),
    {
        let o = match owner {
            None => return Err(MarketError::TokenNotFound),
            Some(o) => o,
        };
        if o.same_as(&caller) {
            return Err(MarketError::OwnToken);
        }
        let price = match self.price(id) {
            None => return Err(MarketError::TokenNotInSale),
            Some(p) => p,
        };
        if transferred != price {
            return Err(MarketError::PriceMismatch);
        }
        Ok(price)
    }

    /// Settles the purchase of `id` by `caller` with `transferred` attached. `payment_ok`
    /// says whether paying the price to the seller went through. On success the listing is
    /// gone, so the ledger's transfer of the token to the buyer passes the guard, and the
    /// sale is returned as a trade record.
    pub fn buy(
        &mut self,
        owner: Option<AccountId>,
        caller: AccountId,
        id: Id,
        transferred: Balance,
        payment_ok: bool,
    ) -> (r: Result<Trade, MarketError>)
        requires
            old(self).wf(),
        ensures
            final(self).wf(),
            final(self)@ == buy_outcome(
                old(self)@,
                owner_view(owner),
                caller@,
                id@,
                transferred,
                payment_ok,
            ).0,
            match r {
                Ok(t) => buy_outcome(
                    old(self)@,
                    owner_view(owner),
                    caller@,
                    id@,
                    transferred,
                    payment_ok,
                ).1 == Ok::<(), MarketError>(()) && owner_view(owner) == Some(t.seller@) && t.buyer@
                    == caller@ && t.id@ == id@ && t.price == transferred,
                Err(e) => buy_outcome(
                    old(self)@,
                    owner_view(owner),
                    caller@,
                    id@,
                    transferred,
                    payment_ok,
                ).1 == Err::<(), MarketError>(e),
            },
    {
        let seller = match owner {
            None => return Err(MarketError::TokenNotFound),
            Some(o) => o,
        };
        let price = match self.check_buy(owner, caller, &id, transferred) {
            Err(e) => return Err(e),
            Ok(p) => p,
        };
        if !payment_ok {
            return Err(MarketError::PaymentTransferFailed);
        }
        match self.find(&id) {
            Some(i) => {
                proof {
                    lemma_map_of_remove(self.asks@, i as int);
                }
                self.asks.remove(i);
            },
            None => {},
        }
        Ok(Trade { seller, buyer: caller, id, price })
    }
}

} // verus!
