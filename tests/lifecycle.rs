use sec_market::{
    buy_tokens, cancel_order, compute_expiration, create_order, modify_order, settle_expired_order,
    transfer_price_to_creator, update_or_close_order, Address, Error, Market, Order, OrderUpdate,
    Transfer, NATIVE_SOL_MINT_BYTES,
};

const NOW: i64 = 1_700_000_000;
const DAY: i64 = 86_400;

fn creator() -> Address {
    Address::new([1u8; 32])
}

fn buyer() -> Address {
    Address::new([2u8; 32])
}

fn usdc() -> Address {
    Address::new([7u8; 32])
}

fn native() -> Address {
    Address::new(NATIVE_SOL_MINT_BYTES)
}

fn open_order(amount: u64, price: u64, mint: Address) -> Order {
    create_order(creator(), 1, price, amount, 1, mint, 254, NOW).unwrap().order.unwrap()
}

fn no_change() -> OrderUpdate {
    OrderUpdate { amount: None, price: None, duration_days: None }
}

#[test]
fn create_sets_fields_and_funds_escrow() {
    let step = create_order(creator(), 9, 10, 100, 2, usdc(), 250, NOW).unwrap();
    let o = step.order.unwrap();
    assert_eq!(o.seed, 9);
    assert_eq!(o.creator, creator());
    assert_eq!(o.amount, 100);
    assert_eq!(o.remaining_amount, 100);
    assert_eq!(o.price, 10);
    assert_eq!(o.price_mint, usdc());
    assert_eq!(o.expiration, NOW + 2 * DAY);
    assert_eq!(o.order_bump, 250);
    assert_eq!(step.transfers, vec![Transfer::CreatorToEscrow { amount: 100 }]);
}

#[test]
fn create_overflow_on_duration() {
    let r = create_order(creator(), 1, 10, 100, i64::MAX / 1000, usdc(), 0, NOW);
    assert_eq!(r.unwrap_err(), Error::Overflow);
    let r = create_order(creator(), 1, 10, 100, 1, usdc(), 0, i64::MAX - 10);
    assert_eq!(r.unwrap_err(), Error::Overflow);
}

#[test]
fn expiration_formula() {
    assert_eq!(compute_expiration(100, 3), Ok(100 + 3 * 86_400));
    assert_eq!(compute_expiration(0, -1), Ok(-86_400));
    assert_eq!(compute_expiration(0, i64::MAX), Err(Error::Overflow));
    assert_eq!(compute_expiration(i64::MAX, 1), Err(Error::Overflow));
}

#[test]
fn payment_in_tokens_scales_by_decimals() {
    assert_eq!(
        transfer_price_to_creator(10, 40, false, 6),
        Ok(Transfer::BuyerToCreatorTokens { amount: 400_000_000 })
    );
    assert_eq!(
        transfer_price_to_creator(10, 40, false, 0),
        Ok(Transfer::BuyerToCreatorTokens { amount: 400 })
    );
}

#[test]
fn payment_in_native_currency_uses_lamports() {
    assert_eq!(
        transfer_price_to_creator(10, 40, true, 0),
        Ok(Transfer::BuyerToCreatorLamports { lamports: 400_000_000_000 })
    );
}

#[test]
fn payment_overflow() {
    assert_eq!(transfer_price_to_creator(u64::MAX, 2, false, 0), Err(Error::Overflow));
    assert_eq!(transfer_price_to_creator(1, 1, false, 20), Err(Error::Overflow));
    assert_eq!(transfer_price_to_creator(u64::MAX / 2, 1, true, 0), Err(Error::Overflow));
    assert_eq!(
        transfer_price_to_creator(1, 1, false, 19),
        Ok(Transfer::BuyerToCreatorTokens { amount: 10_000_000_000_000_000_000 })
    );
}

#[test]
fn native_mint_is_recognised() {
    assert!(native().is_native_mint());
    assert!(!usdc().is_native_mint());
    assert!(creator().same_as(&Address::new([1u8; 32])));
    assert!(!creator().same_as(&buyer()));
}

#[test]
fn partial_fill_shrinks_order() {
    let o = open_order(100, 10, usdc());
    let step = buy_tokens(&o, NOW, 40, 0).unwrap();
    let after = step.order.unwrap();
    assert_eq!(after.remaining_amount, 60);
    assert_eq!(after.amount, 100);
    assert_eq!(
        step.transfers,
        vec![Transfer::EscrowToBuyer { amount: 40 }, Transfer::BuyerToCreatorTokens { amount: 400 }]
    );
}

#[test]
fn update_or_close_order_closes_at_zero() {
    let o = open_order(100, 10, usdc());
    assert!(update_or_close_order(o, 100).is_none());
    assert_eq!(update_or_close_order(o, 30).unwrap().remaining_amount, 70);
}

#[test]
fn buy_boundary_exact_and_one_more() {
    let o = open_order(100, 10, usdc());
    let step = buy_tokens(&o, NOW, 100, 0).unwrap();
    assert!(step.order.is_none());
    assert_eq!(buy_tokens(&o, NOW, 101, 0).unwrap_err(), Error::AmountExceedsAvailable);
    let partly = buy_tokens(&o, NOW, 30, 0).unwrap().order.unwrap();
    assert_eq!(buy_tokens(&partly, NOW, 71, 0).unwrap_err(), Error::AmountExceedsAvailable);
    assert!(buy_tokens(&partly, NOW, 70, 0).unwrap().order.is_none());
}

#[test]
fn buy_after_deadline_is_refused() {
    let o = open_order(100, 10, usdc());
    assert!(buy_tokens(&o, NOW + DAY, 1, 0).is_ok());
    assert_eq!(buy_tokens(&o, NOW + DAY + 1, 1, 0).unwrap_err(), Error::OrderExpired);
}

#[test]
fn modify_resizes_reprices_and_reschedules() {
    let o = open_order(100, 10, usdc());
    let up = OrderUpdate { amount: Some(150), price: Some(12), duration_days: Some(3) };
    let step = modify_order(&o, &creator(), NOW + 5, up).unwrap();
    let m = step.order.unwrap();
    assert_eq!(m.amount, 150);
    assert_eq!(m.remaining_amount, 150);
    assert_eq!(m.price, 12);
    assert_eq!(m.expiration, NOW + 5 + 3 * DAY);
    assert_eq!(step.transfers, vec![Transfer::CreatorToEscrow { amount: 50 }]);
    let step = modify_order(&m, &creator(), NOW, OrderUpdate { amount: Some(20), ..no_change() }).unwrap();
    assert_eq!(step.transfers, vec![Transfer::EscrowToCreator { amount: 130 }]);
    let same = modify_order(&o, &creator(), NOW, no_change()).unwrap();
    assert_eq!(same.order.unwrap(), o);
    assert!(same.transfers.is_empty());
}

#[test]
fn modify_errors() {
    let o = open_order(100, 10, usdc());
    assert_eq!(modify_order(&o, &buyer(), NOW, no_change()).unwrap_err(), Error::Unauthorized);
    let up = OrderUpdate { duration_days: Some(i64::MAX), ..no_change() };
    assert_eq!(modify_order(&o, &creator(), NOW, up).unwrap_err(), Error::Overflow);
    let partly = buy_tokens(&o, NOW, 1, 0).unwrap().order.unwrap();
    assert_eq!(modify_order(&partly, &creator(), NOW, no_change()).unwrap_err(), Error::OrderPartiallyFilled);
}

#[test]
fn cancel_returns_everything() {
    let o = open_order(100, 10, usdc());
    let step = cancel_order(&o, &creator()).unwrap();
    assert!(step.order.is_none());
    assert_eq!(step.transfers, vec![Transfer::EscrowToCreator { amount: 100 }]);
    assert_eq!(cancel_order(&o, &buyer()).unwrap_err(), Error::Unauthorized);
    let partly = buy_tokens(&o, NOW, 99, 0).unwrap().order.unwrap();
    assert_eq!(cancel_order(&partly, &creator()).unwrap_err(), Error::OrderPartiallyFilled);
}

#[test]
fn settle_returns_remaining_after_deadline() {
    let o = open_order(100, 10, usdc());
    assert_eq!(settle_expired_order(&o, NOW + DAY).unwrap_err(), Error::OrderNotExpired);
    let partly = buy_tokens(&o, NOW, 40, 0).unwrap().order.unwrap();
    let step = settle_expired_order(&partly, NOW + DAY + 1).unwrap();
    assert!(step.order.is_none());
    assert_eq!(step.transfers, vec![Transfer::EscrowToCreator { amount: 60 }]);
}

#[test]
fn error_messages_are_distinct() {
    let all = [
        Error::Unauthorized,
        Error::OrderExpired,
        Error::OrderNotExpired,
        Error::AmountExceedsAvailable,
        Error::OrderPartiallyFilled,
        Error::Overflow,
        Error::OrderNotFound,
        Error::OrderAlreadyExists,
    ];
    for (i, a) in all.iter().enumerate() {
        for b in all.iter().skip(i + 1) {
            assert_ne!(a.message(), b.message());
        }
    }
    assert_eq!(Error::Overflow.message(), "Overflow error.");
}

#[test]
fn market_create_buy_modify_settle_scenario() {
    let mut m = Market::new();
    m.create_order(creator(), 1, 10, 100, 1, native(), 255, NOW).unwrap();
    assert_eq!(m.lookup(&creator(), 1).unwrap().escrow, 100);
    let step = m.buy_tokens(&creator(), 1, NOW + 10, 40, 0).unwrap();
    assert_eq!(
        step.transfers,
        vec![
            Transfer::EscrowToBuyer { amount: 40 },
            Transfer::BuyerToCreatorLamports { lamports: 400 * 1_000_000_000 },
        ]
    );
    let slot = m.lookup(&creator(), 1).unwrap();
    assert_eq!(slot.order.remaining_amount, 60);
    assert_eq!(slot.escrow, 60);
    let up = OrderUpdate { amount: Some(10), ..no_change() };
    assert_eq!(m.modify_order(&creator(), 1, &creator(), NOW + 20, up).unwrap_err(), Error::OrderPartiallyFilled);
    assert_eq!(m.cancel_order(&creator(), 1, &creator()).unwrap_err(), Error::OrderPartiallyFilled);
    assert_eq!(m.settle_expired_order(&creator(), 1, NOW + 30).unwrap_err(), Error::OrderNotExpired);
    let step = m.settle_expired_order(&creator(), 1, NOW + DAY + 1).unwrap();
    assert_eq!(step.transfers, vec![Transfer::EscrowToCreator { amount: 60 }]);
    assert!(m.lookup(&creator(), 1).is_none());
    assert_eq!(m.len(), 0);
}

#[test]
fn market_token_payment_scenario() {
    let mut m = Market::new();
    m.create_order(creator(), 1, 10, 100, 1, usdc(), 255, NOW).unwrap();
    let step = m.buy_tokens(&creator(), 1, NOW, 40, 0).unwrap();
    assert_eq!(step.transfers[1], Transfer::BuyerToCreatorTokens { amount: 400 });
    assert_eq!(m.lookup(&creator(), 1).unwrap().escrow, 60);
}

#[test]
fn market_modify_resizes_escrow() {
    let mut m = Market::new();
    m.create_order(creator(), 1, 10, 100, 1, usdc(), 255, NOW).unwrap();
    let up = OrderUpdate { amount: Some(150), ..no_change() };
    let step = m.modify_order(&creator(), 1, &creator(), NOW, up).unwrap();
    assert_eq!(step.transfers, vec![Transfer::CreatorToEscrow { amount: 50 }]);
    let slot = m.lookup(&creator(), 1).unwrap();
    assert_eq!((slot.order.amount, slot.order.remaining_amount, slot.escrow), (150, 150, 150));
    let up = OrderUpdate { amount: Some(20), ..no_change() };
    let step = m.modify_order(&creator(), 1, &creator(), NOW, up).unwrap();
    assert_eq!(step.transfers, vec![Transfer::EscrowToCreator { amount: 130 }]);
    let slot = m.lookup(&creator(), 1).unwrap();
    assert_eq!((slot.order.amount, slot.order.remaining_amount, slot.escrow), (20, 20, 20));
}

#[test]
fn market_fills_to_zero_then_order_is_gone() {
    let mut m = Market::new();
    m.create_order(creator(), 1, 10, 100, 1, usdc(), 255, NOW).unwrap();
    m.create_order(creator(), 2, 10, 5, 1, usdc(), 255, NOW).unwrap();
    m.buy_tokens(&creator(), 1, NOW, 30, 0).unwrap();
    m.buy_tokens(&creator(), 1, NOW, 30, 0).unwrap();
    let last = m.buy_tokens(&creator(), 1, NOW, 40, 0).unwrap();
    assert!(last.order.is_none());
    assert!(m.lookup(&creator(), 1).is_none());
    assert_eq!(m.buy_tokens(&creator(), 1, NOW, 1, 0).unwrap_err(), Error::OrderNotFound);
    assert_eq!(m.cancel_order(&creator(), 1, &creator()).unwrap_err(), Error::OrderNotFound);
    assert_eq!(m.settle_expired_order(&creator(), 1, NOW + 2 * DAY).unwrap_err(), Error::OrderNotFound);
    assert_eq!(
        m.modify_order(&creator(), 1, &creator(), NOW, no_change()).unwrap_err(),
        Error::OrderNotFound
    );
    assert_eq!(m.lookup(&creator(), 2).unwrap().escrow, 5);
    assert_eq!(m.len(), 1);
}

#[test]
fn market_create_then_cancel_round_trip() {
    let mut m = Market::new();
    m.create_order(creator(), 3, 10, 100, 1, usdc(), 255, NOW).unwrap();
    let step = m.cancel_order(&creator(), 3, &creator()).unwrap();
    assert_eq!(step.transfers, vec![Transfer::EscrowToCreator { amount: 100 }]);
    assert!(m.lookup(&creator(), 3).is_none());
    assert_eq!(m.len(), 0);
}

#[test]
fn market_refuses_duplicate_identity() {
    let mut m = Market::new();
    m.create_order(creator(), 3, 10, 100, 1, usdc(), 255, NOW).unwrap();
    let r = m.create_order(creator(), 3, 1, 1, 1, usdc(), 255, NOW);
    assert_eq!(r.unwrap_err(), Error::OrderAlreadyExists);
    assert!(m.create_order(buyer(), 3, 1, 1, 1, usdc(), 255, NOW).is_ok());
    assert_eq!(m.lookup(&creator(), 3).unwrap().order.amount, 100);
    assert_eq!(m.len(), 2);
}

#[test]
fn market_refused_operation_changes_nothing() {
    let mut m = Market::new();
    m.create_order(creator(), 1, 10, 100, 1, usdc(), 255, NOW).unwrap();
    assert_eq!(m.buy_tokens(&creator(), 1, NOW, 101, 0).unwrap_err(), Error::AmountExceedsAvailable);
    assert_eq!(m.buy_tokens(&creator(), 1, NOW + 2 * DAY, 1, 0).unwrap_err(), Error::OrderExpired);
    assert_eq!(m.cancel_order(&creator(), 1, &buyer()).unwrap_err(), Error::Unauthorized);
    let slot = m.lookup(&creator(), 1).unwrap();
    assert_eq!((slot.order.remaining_amount, slot.escrow), (100, 100));
}
