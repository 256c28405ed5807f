use videown::error::MarketError;
use videown::market::Videown;
use videown::types::{AccountId, Approval, Id, Trade};

fn alice() -> AccountId {
    AccountId([1u8; 32])
}

fn bob() -> AccountId {
    AccountId([2u8; 32])
}

fn carol() -> AccountId {
    let mut b = [1u8; 32];
    b[31] = 9;
    AccountId(b)
}

#[test]
fn new_market_has_no_listing() {
    let m = Videown::new();
    assert_eq!(m.price(&Id::U8(1)), None);
    assert_eq!(m.before_token_transfer(&Id::U8(1)), Ok(()));
}

#[test]
fn unlisted_token_moves_freely() {
    let mut m = Videown::new();
    m.ask(Some(alice()), alice(), Id::U8(2), 10).unwrap();
    assert_eq!(m.price(&Id::U8(1)), None);
    assert_eq!(m.before_token_transfer(&Id::U8(1)), Ok(()));
}

#[test]
fn listed_token_has_its_price_and_is_locked() {
    let mut m = Videown::new();
    assert_eq!(m.ask(Some(alice()), alice(), Id::U8(1), 100), Ok(()));
    assert_eq!(m.price(&Id::U8(1)), Some(100));
    assert_eq!(m.before_token_transfer(&Id::U8(1)), Err(MarketError::TokenInSale));
}

#[test]
fn owner_ask_overwrites_price() {
    let mut m = Videown::new();
    m.ask(Some(alice()), alice(), Id::U8(1), 100).unwrap();
    assert_eq!(m.ask(Some(alice()), alice(), Id::U8(1), 70), Ok(()));
    assert_eq!(m.price(&Id::U8(1)), Some(70));
}

#[test]
fn ask_by_non_owner_fails() {
    let mut m = Videown::new();
    m.ask(Some(alice()), alice(), Id::U8(1), 100).unwrap();
    assert_eq!(m.ask(Some(alice()), carol(), Id::U8(1), 5), Err(MarketError::NotTokenOwner));
    assert_eq!(m.price(&Id::U8(1)), Some(100));
}

#[test]
fn ask_for_missing_token_fails() {
    let mut m = Videown::new();
    assert_eq!(m.ask(None, alice(), Id::U8(1), 100), Err(MarketError::TokenNotFound));
    assert_eq!(m.price(&Id::U8(1)), None);
}

#[test]
fn zero_price_listing_is_accepted() {
    let mut m = Videown::new();
    assert_eq!(m.ask(Some(alice()), alice(), Id::U8(1), 0), Ok(()));
    assert_eq!(m.price(&Id::U8(1)), Some(0));
    let t = m.buy(Some(alice()), bob(), Id::U8(1), 0, true).unwrap();
    assert_eq!(t.price, 0);
}

#[test]
fn identifiers_of_other_variants_are_distinct() {
    let mut m = Videown::new();
    m.ask(Some(alice()), alice(), Id::U8(1), 100).unwrap();
    m.ask(Some(alice()), alice(), Id::U16(1), 200).unwrap();
    m.ask(Some(alice()), alice(), Id::Bytes(vec![1, 2, 3]), 300).unwrap();
    assert_eq!(m.price(&Id::U8(1)), Some(100));
    assert_eq!(m.price(&Id::U16(1)), Some(200));
    assert_eq!(m.price(&Id::U32(1)), None);
    assert_eq!(m.price(&Id::Bytes(vec![1, 2, 3])), Some(300));
    assert_eq!(m.price(&Id::Bytes(vec![1, 2])), None);
    assert_eq!(m.price(&Id::U128(u128::MAX)), None);
}

#[test]
fn owner_cannot_buy_own_token() {
    let mut m = Videown::new();
    m.ask(Some(alice()), alice(), Id::U8(1), 100).unwrap();
    assert_eq!(m.check_buy(Some(alice()), alice(), &Id::U8(1), 100), Err(MarketError::OwnToken));
    assert_eq!(m.buy(Some(alice()), alice(), Id::U8(1), 100, true).err(), Some(MarketError::OwnToken));
    assert_eq!(m.buy(Some(alice()), alice(), Id::U8(1), 5, true).err(), Some(MarketError::OwnToken));
    assert_eq!(m.price(&Id::U8(1)), Some(100));
}

#[test]
fn buy_with_wrong_payment_fails() {
    let mut m = Videown::new();
    m.ask(Some(alice()), alice(), Id::U8(1), 100).unwrap();
    assert_eq!(m.check_buy(Some(alice()), bob(), &Id::U8(1), 99), Err(MarketError::PriceMismatch));
    assert_eq!(m.buy(Some(alice()), bob(), Id::U8(1), 101, true).err(), Some(MarketError::PriceMismatch));
    assert_eq!(m.price(&Id::U8(1)), Some(100));
}

#[test]
fn buy_of_unlisted_token_fails() {
    let mut m = Videown::new();
    assert_eq!(m.buy(Some(alice()), bob(), Id::U8(1), 100, true).err(), Some(MarketError::TokenNotInSale));
}

#[test]
fn buy_of_missing_token_fails() {
    let mut m = Videown::new();
    assert_eq!(m.buy(None, bob(), Id::U8(1), 100, true).err(), Some(MarketError::TokenNotFound));
}

#[test]
fn failed_payment_keeps_listing() {
    let mut m = Videown::new();
    m.ask(Some(alice()), alice(), Id::U8(1), 100).unwrap();
    assert_eq!(m.check_buy(Some(alice()), bob(), &Id::U8(1), 100), Ok(100));
    assert_eq!(m.buy(Some(alice()), bob(), Id::U8(1), 100, false).err(), Some(MarketError::PaymentTransferFailed));
    assert_eq!(m.price(&Id::U8(1)), Some(100));
}

#[test]
fn exact_payment_buys_token() {
    let mut m = Videown::new();
    m.ask(Some(alice()), alice(), Id::U8(1), 100).unwrap();
    let t: Trade = m.buy(Some(alice()), bob(), Id::U8(1), 100, true).unwrap();
    assert_eq!(t.seller.0, alice().0);
    assert_eq!(t.buyer.0, bob().0);
    assert!(matches!(t.id, Id::U8(1)));
    assert_eq!(t.price, 100);
    assert_eq!(m.price(&Id::U8(1)), None);
    assert_eq!(m.before_token_transfer(&Id::U8(1)), Ok(()));
    let moved = t.transfer();
    assert_eq!(moved.from.map(|a| a.0), Some(alice().0));
    assert_eq!(moved.to.map(|a| a.0), Some(bob().0));
    assert!(matches!(moved.id, Id::U8(1)));
}

#[test]
fn buy_leaves_other_listings() {
    let mut m = Videown::new();
    m.ask(Some(alice()), alice(), Id::U8(1), 100).unwrap();
    m.ask(Some(alice()), alice(), Id::U8(2), 200).unwrap();
    m.ask(Some(alice()), alice(), Id::U8(3), 300).unwrap();
    m.buy(Some(alice()), bob(), Id::U8(2), 200, true).unwrap();
    assert_eq!(m.price(&Id::U8(1)), Some(100));
    assert_eq!(m.price(&Id::U8(2)), None);
    assert_eq!(m.price(&Id::U8(3)), Some(300));
}

#[test]
fn cancel_by_owner_clears_listing() {
    let mut m = Videown::new();
    m.ask(Some(alice()), alice(), Id::U8(1), 100).unwrap();
    assert_eq!(m.cancel(Some(alice()), alice(), &Id::U8(1)), Ok(()));
    assert_eq!(m.price(&Id::U8(1)), None);
    assert_eq!(m.before_token_transfer(&Id::U8(1)), Ok(()));
}

#[test]
fn cancel_of_unlisted_token_fails() {
    let mut m = Videown::new();
    assert_eq!(m.cancel(Some(alice()), alice(), &Id::U8(1)), Err(MarketError::NotInSale));
}

#[test]
fn cancel_by_non_owner_fails() {
    let mut m = Videown::new();
    m.ask(Some(alice()), alice(), Id::U8(1), 100).unwrap();
    assert_eq!(m.cancel(Some(alice()), bob(), &Id::U8(1)), Err(MarketError::NotTokenOwner));
    assert_eq!(m.price(&Id::U8(1)), Some(100));
}

#[test]
fn cancel_of_missing_token_fails() {
    let mut m = Videown::new();
    assert_eq!(m.cancel(None, alice(), &Id::U8(1)), Err(MarketError::TokenNotFound));
}

#[test]
fn cancel_twice_fails_the_second_time() {
    let mut m = Videown::new();
    m.ask(Some(alice()), alice(), Id::U8(1), 100).unwrap();
    assert_eq!(m.cancel(Some(alice()), alice(), &Id::U8(1)), Ok(()));
    assert_eq!(m.cancel(Some(alice()), alice(), &Id::U8(1)), Err(MarketError::NotInSale));
    assert_eq!(m.price(&Id::U8(1)), None);
}

#[test]
fn sale_and_sale_back() {
    let mut m = Videown::new();
    // token 1 is minted to alice by the ledger
    let mut owner = alice();
    assert_eq!(m.ask(Some(owner), alice(), Id::U8(1), 100), Ok(()));
    assert_eq!(m.price(&Id::U8(1)), Some(100));
    let paid = m.check_buy(Some(owner), bob(), &Id::U8(1), 100).unwrap();
    assert_eq!(paid, 100);
    let t = m.buy(Some(owner), bob(), Id::U8(1), 100, true).unwrap();
    assert_eq!(t.seller.0, alice().0);
    assert_eq!(t.price, 100);
    owner = t.buyer;
    assert_eq!(owner.0, bob().0);
    assert_eq!(m.price(&Id::U8(1)), None);
    assert_eq!(m.ask(Some(owner), bob(), Id::U8(1), 50), Ok(()));
    let t = m.buy(Some(owner), alice(), Id::U8(1), 50, true).unwrap();
    assert_eq!(t.seller.0, bob().0);
    assert_eq!(t.buyer.0, alice().0);
    assert_eq!(t.price, 50);
    assert_eq!(m.price(&Id::U8(1)), None);
}

#[test]
fn accounts_compare_by_every_byte() {
    assert!(alice().same_as(&alice()));
    assert!(!alice().same_as(&carol()));
    assert!(!alice().same_as(&bob()));
    assert!(Id::Bytes(vec![7, 8]).same_as(&Id::Bytes(vec![7, 8])));
    assert!(!Id::Bytes(vec![7, 8]).same_as(&Id::Bytes(vec![7, 9])));
    assert!(!Id::U64(3).same_as(&Id::U32(3)));
}

#[test]
fn approval_record_holds_its_fields() {
    let a = Approval { from: alice(), to: bob(), id: None, approved: true };
    assert_eq!(a.from.0, alice().0);
    assert_eq!(a.to.0, bob().0);
    assert!(a.id.is_none());
    assert!(a.approved);
}

#[test]
fn stored_listings_load_back() {
    let mut m = Videown::new();
    m.ask(Some(alice()), alice(), Id::U8(1), 100).unwrap();
    m.ask(Some(alice()), alice(), Id::Bytes(vec![4]), 40).unwrap();
    m.ask(Some(alice()), alice(), Id::U8(1), 90).unwrap();
    let stored = m.take_listings();
    assert_eq!(stored.len(), 2);
    let mut back = Videown::new();
    for (id, price) in stored {
        back.set_price(id, price);
    }
    assert_eq!(back.price(&Id::U8(1)), Some(90));
    assert_eq!(back.price(&Id::Bytes(vec![4])), Some(40));
    assert_eq!(back.price(&Id::U8(4)), None);
}
