use vstd::prelude::*;

use crate::address::Address;
use crate::error::Error;
use crate::lifecycle::{after_fill, buy_spec, cancel_spec, create_spec, modify_spec, payment};
use crate::order::{escrow_change, Order, OrderUpdate, StepView, Transfer};

verus! {

/// Once any unit of an order has been sold, its creator can neither modify
/// nor cancel it: both are refused with `OrderPartiallyFilled`, whatever the
/// update and the time. In particular this holds after every purchase of a
/// positive amount that leaves the order open.
pub proof fn lemma_fill_forecloses_changes(
    order: Order,
    now: i64,
    bought: u64,
    price_decimals: u8,
    later: i64,
    update: OrderUpdate,
)
    requires
        order.wf(),
        order.is_unfilled(),
        bought > 0,
        buy_spec(order, now, bought, price_decimals) matches Ok(s) && s.order is Some,
    ensures
        ({
            let filled = buy_spec(order, now, bought, price_decimals)->Ok_0.order->Some_0;
            &&& filled.remaining_amount < filled.amount
            &&& modify_spec(filled, filled.creator, later, update) == Err::<StepView, Error>(Error::OrderPartiallyFilled)
            &&& cancel_spec(filled, filled.creator) == Err::<StepView, Error>(Error::OrderPartiallyFilled)
        }),
{
}

/// Creating an order and cancelling it right away hands exactly the created
/// amount back to the creator, closes the record, and leaves escrow where it
/// started.
pub proof fn lemma_create_then_cancel(
    creator: Address,
    seed: u64,
    price: u64,
    amount: u64,
    duration_days: i64,
    price_mint: Address,
    order_bump: u8,
    now: i64,
)
    requires
        create_spec(creator, seed, price, amount, duration_days, price_mint, order_bump, now) is Ok,
    ensures
        ({
            let created = create_spec(creator, seed, price, amount, duration_days, price_mint, order_bump, now)->Ok_0;
            let cancelled = cancel_spec(created.order->Some_0, creator);
            &&& cancelled == Ok::<StepView, Error>(
                StepView { order: None, transfers: seq![Transfer::EscrowToCreator { amount }] },
            )
            &&& escrow_change(created.transfers) + escrow_change(cancelled->Ok_0.transfers) == 0
        }),
{
    reveal_with_fuel(escrow_change, 2);
    let created = create_spec(creator, seed, price, amount, duration_days, price_mint, order_bump, now)->Ok_0;
    assert(created.transfers.drop_last() =~= Seq::<Transfer>::empty());
    let cancelled = cancel_spec(created.order->Some_0, creator)->Ok_0;
    assert(cancelled.transfers.drop_last() =~= Seq::<Transfer>::empty());
}

/// Before the deadline, buying exactly the remaining units closes the order
/// (when the payment fits), and buying one unit more is refused with
/// `AmountExceedsAvailable`.
pub proof fn lemma_buy_boundary(order: Order, now: i64, price_decimals: u8)
    requires
        order.wf(),
        now <= order.expiration,
    ensures
        payment(order.price, order.remaining_amount, order.price_mint == crate::address::native_sol_mint(), price_decimals) is Ok
            ==> (buy_spec(order, now, order.remaining_amount, price_decimals) matches Ok(s) && s.order is None),
        order.remaining_amount < u64::MAX ==> buy_spec(order, now, (order.remaining_amount + 1) as u64, price_decimals)
            == Err::<StepView, Error>(Error::AmountExceedsAvailable),
{
}

/// The sum of a sequence of purchase amounts.
pub open spec fn total(amounts: Seq<u64>) -> int
    decreases amounts.len(),
{
    if amounts.len() == 0 {
        0
    } else {
        amounts[0] + total(amounts.drop_first())
    }
}

/// The record left by buying `amounts` one after another from `record`, and
/// the net change of its escrow; a purchase from a closed record is refused
/// with `OrderNotFound`.
pub open spec fn fills(record: Option<Order>, now: i64, amounts: Seq<u64>, price_decimals: u8) -> Result<
    (Option<Order>, int),
    Error,
>
    decreases amounts.len(),
{
    if amounts.len() == 0 {
        Ok((record, 0))
    } else {
        match record {
            None => Err(Error::OrderNotFound),
            Some(o) => match buy_spec(o, now, amounts[0], price_decimals) {
                Err(e) => Err(e),
                Ok(s) => match fills(s.order, now, amounts.drop_first(), price_decimals) {
                    Err(e) => Err(e),
                    Ok(r) => Ok((r.0, r.1 + escrow_change(s.transfers))),
                },
            },
        }
    }
}

/// One or more purchases that together take exactly the remaining units close the
/// record and empty its escrow; any further purchase is then refused with
/// `OrderNotFound`, as for an order that never existed.
pub proof fn lemma_fills_to_zero_close(order: Order, now: i64, amounts: Seq<u64>, price_decimals: u8, later: u64)
    requires
        order.wf(),
        amounts.len() > 0,
        total(amounts) == order.remaining_amount,
        fills(Some(order), now, amounts, price_decimals) is Ok,
    ensures
        ({
            let (last, change) = fills(Some(order), now, amounts, price_decimals)->Ok_0;
            &&& last is None
            &&& order.remaining_amount + change == 0
            &&& fills(last, now, seq![later], price_decimals) == Err::<(Option<Order>, int), Error>(Error::OrderNotFound)
        }),
    decreases amounts.len(),
{
    reveal_with_fuel(escrow_change, 3);
    let a = amounts[0];
    let rest = amounts.drop_first();
    let s = buy_spec(order, now, a, price_decimals)->Ok_0;
    assert(s.transfers.drop_last().drop_last() =~= Seq::<Transfer>::empty());
    assert(escrow_change(s.transfers) == -(a as int));
    assert(s.order == after_fill(order, a));
    assert(fills(s.order, now, rest, price_decimals) is Ok);
    if rest.len() == 0 {
        assert(total(rest) == 0);
        assert(a == order.remaining_amount);
    } else {
        assert(s.order is Some);
        let o2 = s.order->Some_0;
        assert(o2.remaining_amount == order.remaining_amount - a);
        lemma_fills_to_zero_close(o2, now, rest, price_decimals, later);
    }
}

} // verus!
