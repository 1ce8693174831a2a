use vstd::prelude::*;

use crate::address::{native_sol_mint, Address};
use crate::error::Error;
use crate::order::{
    escrow_change, outcome, remaining_of, Order, OrderUpdate, Step, StepView, Transfer, LAMPORTS_PER_SOL, SECONDS_PER_DAY,
};

verus! {

/// `10` raised to `n`.
pub open spec fn pow10(n: nat) -> nat
    decreases n,
{
    if n == 0 {
        1
    } else {
        10 * pow10((n - 1) as nat)
    }
}

/// Whether an integer fits in `i64`.
pub open spec fn fits_i64(x: int) -> bool {
    i64::MIN <= x <= i64::MAX
}

/// The deadline `duration_days` days after `now`, or `Overflow` when the
/// duration in seconds or the sum leaves the `i64` range.
pub open spec fn expiration_after(now: i64, duration_days: i64) -> Result<i64, Error> {
    let seconds = duration_days * SECONDS_PER_DAY;
    if fits_i64(seconds) && fits_i64(now + seconds) {
        Ok((now + seconds) as i64)
    } else {
        Err(Error::Overflow)
    }
}

/// Smallest units in one whole unit of the price asset.
pub open spec fn price_scale(native: bool, decimals: u8) -> nat {
    if native {
        LAMPORTS_PER_SOL as nat
    } else {
        pow10(decimals as nat)
    }
}

/// The buyer's payment for `amount` units at `price` whole units each, in the
/// price asset's smallest unit, or `Overflow` when a step leaves `u64`.
pub open spec fn payment(price: u64, amount: u64, native: bool, decimals: u8) -> Result<Transfer, Error> {
    let total = price * amount;
    let scale = price_scale(native, decimals);
    if total <= u64::MAX && scale <= u64::MAX && total * scale <= u64::MAX {
        if native {
            Ok(Transfer::BuyerToCreatorLamports { lamports: (total * scale) as u64 })
        } else {
            Ok(Transfer::BuyerToCreatorTokens { amount: (total * scale) as u64 })
        }
    } else {
        Err(Error::Overflow)
    }
}

/// The record after `amount` units of it are sold: closed when none remain.
pub open spec fn after_fill(order: Order, amount: u64) -> Option<Order> {
    if order.remaining_amount == amount {
        None
    } else {
        Some(Order { remaining_amount: (order.remaining_amount - amount) as u64, ..order })
    }
}

/// CreateOrder: a new record holding `amount` units, funded from the creator.
pub open spec fn create_spec(
    creator: Address,
    seed: u64,
    price: u64,
    amount: u64,
    duration_days: i64,
    price_mint: Address,
    order_bump: u8,
    now: i64,
) -> Result<StepView, Error> {
    match expiration_after(now, duration_days) {
        Err(e) => Err(e),
        Ok(expiration) => Ok(
            StepView {
                order: Some(
                    Order {
                        seed,
                        creator,
                        amount,
                        remaining_amount: amount,
                        price,
                        price_mint,
                        expiration,
                        order_bump,
                    },
                ),
                transfers: seq![Transfer::CreatorToEscrow { amount }],
            },
        ),
    }
}

/// BuyTokens: refused once the deadline has passed or when more than the
/// remaining units are asked for; otherwise escrow pays the buyer, the buyer
/// pays the creator, and the record shrinks or closes.
pub open spec fn buy_spec(order: Order, now: i64, amount: u64, price_decimals: u8) -> Result<StepView, Error> {
    if now > order.expiration {
        Err(Error::OrderExpired)
    } else if amount > order.remaining_amount {
        Err(Error::AmountExceedsAvailable)
    } else {
        match payment(order.price, amount, order.price_mint == native_sol_mint(), price_decimals) {
            Err(e) => Err(e),
            Ok(pay) => Ok(
                StepView {
                    order: after_fill(order, amount),
                    transfers: seq![Transfer::EscrowToBuyer { amount }, pay],
                },
            ),
        }
    }
}

/// The escrow movement that resizes an unfilled order to `new_amount`.
pub open spec fn resize_transfers(old_amount: u64, new_amount: u64) -> Seq<Transfer> {
    if new_amount < old_amount {
        seq![Transfer::EscrowToCreator { amount: (old_amount - new_amount) as u64 }]
    } else if new_amount > old_amount {
        seq![Transfer::CreatorToEscrow { amount: (new_amount - old_amount) as u64 }]
    } else {
        seq![]
    }
}

/// ModifyOrder: only the creator, only before any fill; each given field is
/// changed independently, and a resize moves the difference in or out of escrow.
pub open spec fn modify_spec(order: Order, caller: Address, now: i64, update: OrderUpdate) -> Result<StepView, Error> {
    if caller != order.creator {
        Err(Error::Unauthorized)
    } else if order.remaining_amount != order.amount {
        Err(Error::OrderPartiallyFilled)
    } else {
        let expiration = match update.duration_days {
            Some(d) => expiration_after(now, d),
            None => Ok(order.expiration),
        };
        match expiration {
            Err(e) => Err(e),
            Ok(expiration) => {
                let amount = match update.amount {
                    Some(a) => a,
                    None => order.amount,
                };
                let price = match update.price {
                    Some(p) => p,
                    None => order.price,
                };
                Ok(
                    StepView {
                        order: Some(
                            Order { amount, remaining_amount: amount, price, expiration, ..order },
                        ),
                        transfers: resize_transfers(order.amount, amount),
                    },
                )
            },
        }
    }
}

/// CancelOrder: only the creator, only before any fill; all units go back to
/// the creator and the record closes.
pub open spec fn cancel_spec(order: Order, caller: Address) -> Result<StepView, Error> {
    if caller != order.creator {
        Err(Error::Unauthorized)
    } else if order.remaining_amount != order.amount {
        Err(Error::OrderPartiallyFilled)
    } else {
        Ok(
            StepView {
                order: None,
                transfers: seq![Transfer::EscrowToCreator { amount: order.amount }],
            },
        )
    }
}

/// SettleExpiredOrder: only after the deadline; the units still in escrow go
/// back to the creator and the record closes.
pub open spec fn settle_spec(order: Order, now: i64) -> Result<StepView, Error> {
    if now <= order.expiration {
        Err(Error::OrderNotExpired)
    } else {
        Ok(
            StepView {
                order: None,
                transfers: seq![Transfer::EscrowToCreator { amount: order.remaining_amount }],
            },
        )
    }
}

proof fn lemma_pow10_monotonic(a: nat, b: nat)
    requires
        a <= b,
    ensures
        pow10(a) <= pow10(b),
    decreases b - a,
{
    if a < b {
        lemma_pow10_monotonic(a, (b - 1) as nat);
    }
}

/// `10^exp`, or `None` when it does not fit in `u64`.
fn checked_pow10(exp: u8) -> (r: Option<u64>)
    ensures
        r == (if pow10(exp as nat) <= u64::MAX {
            Some(pow10(exp as nat) as u64)
        } else {
            None
        }),
{
    let mut acc: u64 = 1;
    let mut i: u8 = 0;
    while i < exp
        invariant
            i <= exp,
            acc == pow10(i as nat),
        decreases exp - i,
    {
        match acc.checked_mul(10) {
            Some(next) => {
                acc = next;
            },
            None => {
                proof {
                    lemma_pow10_monotonic((i + 1) as nat, exp as nat);
                }
                return None;
            },
        }
        i = i + 1;
    }
    Some(acc)
}

/// Deadline `duration_days` days after `now`, with checked arithmetic.
pub fn compute_expiration(now: i64, duration_days: i64) -> (r: Result<i64, Error>)
    ensures
        r == expiration_after(now, duration_days),
{
    match duration_days.checked_mul(SECONDS_PER_DAY) {
        None => Err(Error::Overflow),
        Some(seconds) => match now.checked_add(seconds) {
            None => Err(Error::Overflow),
            Some(t) => Ok(t),
        },
    }
}

/// The buyer's payment for `amount` units at `price`: in lamports when the
/// price asset is the native currency, else in smallest units of a token with
/// `decimals` decimal places.
pub fn transfer_price_to_creator(price: u64, amount: u64, native: bool, decimals: u8) -> (r: Result<Transfer, Error>)
    ensures
        r == payment(price, amount, native, decimals),
{
    let total = match price.checked_mul(amount) {
        Some(t) => t,
        None => {
            return Err(Error::Overflow);
        },
    };
    let scale = if native {
        LAMPORTS_PER_SOL
    } else {
        match checked_pow10(decimals) {
            Some(s) => s,
            None => {
                return Err(Error::Overflow);
            },
        }
    };
    match total.checked_mul(scale) {
        None => Err(Error::Overflow),
        Some(units) => {
            if native {
                Ok(Transfer::BuyerToCreatorLamports { lamports: units })
            } else {
                Ok(Transfer::BuyerToCreatorTokens { amount: units })
            }
        },
    }
}

/// The record after a fill of `amount` units: `None` once nothing remains.
pub fn update_or_close_order(order: Order, amount: u64) -> (r: Option<Order>)
    requires
        amount <= order.remaining_amount,
    ensures
        r == after_fill(order, amount),
{
    let remaining = order.remaining_amount - amount;
    if remaining == 0 {
        None
    } else {
        Some(Order { remaining_amount: remaining, ..order })
    }
}

/// Opens an order of `amount` units at `price` each, due `duration_days`
/// days after `now`, and asks for the units to be moved into escrow.
pub fn create_order(
    creator: Address,
    seed: u64,
    price: u64,
    amount: u64,
    duration_days: i64,
    price_mint: Address,
    order_bump: u8,
    now: i64,
) -> (r: Result<Step, Error>)
    ensures
        outcome(r) == create_spec(creator, seed, price, amount, duration_days, price_mint, order_bump, now),
        r is Err <==> expiration_after(now, duration_days) is Err,
        r matches Ok(s) ==> s.order matches Some(o) && o.wf() && o.is_unfilled()
            && escrow_change(s.transfers@) == o.remaining_amount,
{
    let expiration = match compute_expiration(now, duration_days) {
        Ok(e) => e,
        Err(e) => {
            return Err(e);
        },
    };
    let order = Order {
        seed,
        creator,
        amount,
        remaining_amount: amount,
        price,
        price_mint,
        expiration,
        order_bump,
    };
    let transfers = vec![Transfer::CreatorToEscrow { amount }];
    let r = Step { order: Some(order), transfers };
    proof {
        reveal_with_fuel(escrow_change, 3);
        assert(r@.transfers.drop_last() =~= Seq::<Transfer>::empty());
        assert(r@.transfers =~= create_spec(creator, seed, price, amount, duration_days, price_mint, order_bump, now)->Ok_0.transfers);
    }
    Ok(r)
}

/// Sells `amount` units of `order` at time `now`; `price_decimals` are the
/// decimal places of the price token (unused for the native currency).
pub fn buy_tokens(order: &Order, now: i64, amount: u64, price_decimals: u8) -> (r: Result<Step, Error>)
    requires
        order.wf(),
    ensures
        outcome(r) == buy_spec(*order, now, amount, price_decimals),
        now > order.expiration ==> r == Err::<Step, Error>(Error::OrderExpired),
        now <= order.expiration && amount > order.remaining_amount ==> r == Err::<Step, Error>(Error::AmountExceedsAvailable),
        r matches Ok(s) ==> (s.order matches Some(o) ==> o.wf() && o.remaining_amount > 0)
            && order.remaining_amount + escrow_change(s.transfers@) == remaining_of(s.order),
{
    if now > order.expiration {
        return Err(Error::OrderExpired);
    }
    if amount > order.remaining_amount {
        return Err(Error::AmountExceedsAvailable);
    }
    let native = order.price_mint.is_native_mint();
    let pay = match transfer_price_to_creator(order.price, amount, native, price_decimals) {
        Ok(t) => t,
        Err(e) => {
            return Err(e);
        },
    };
    let next = update_or_close_order(*order, amount);
    let transfers = vec![Transfer::EscrowToBuyer { amount }, pay];
    let r = Step { order: next, transfers };
    proof {
        reveal_with_fuel(escrow_change, 3);
        assert(r@.transfers.drop_last().drop_last() =~= Seq::<Transfer>::empty());
        assert(r@.transfers.drop_last() =~= seq![Transfer::EscrowToBuyer { amount }]);
        assert(r@.transfers =~= buy_spec(*order, now, amount, price_decimals)->Ok_0.transfers);
    }
    Ok(r)
}

/// Applies `update` to an unfilled order on behalf of `caller` at time `now`.
pub fn modify_order(order: &Order, caller: &Address, now: i64, update: OrderUpdate) -> (r: Result<Step, Error>)
    requires
        order.wf(),
    ensures
        outcome(r) == modify_spec(*order, *caller, now, update),
        *caller != order.creator ==> r == Err::<Step, Error>(Error::Unauthorized),
        *caller == order.creator && !order.is_unfilled() ==> r == Err::<Step, Error>(Error::OrderPartiallyFilled),
        r matches Ok(s) ==> s.order matches Some(o) && o.wf() && o.is_unfilled()
            && order.remaining_amount + escrow_change(s.transfers@) == o.remaining_amount,
{
    if !caller.same_as(&order.creator) {
        return Err(Error::Unauthorized);
    }
    if order.remaining_amount != order.amount {
        return Err(Error::OrderPartiallyFilled);
    }
    let expiration = match update.duration_days {
        Some(d) => match compute_expiration(now, d) {
            Ok(e) => e,
            Err(e) => {
                return Err(e);
            },
        },
        None => order.expiration,
    };
    let mut transfers: Vec<Transfer> = Vec::new();
    let amount = match update.amount {
        Some(new_amount) => {
            if new_amount < order.amount {
                transfers.push(Transfer::EscrowToCreator { amount: order.amount - new_amount });
            } else if new_amount > order.amount {
                transfers.push(Transfer::CreatorToEscrow { amount: new_amount - order.amount });
            }
            new_amount
        },
        None => order.amount,
    };
    let price = match update.price {
        Some(p) => p,
        None => order.price,
    };
    let next = Order { amount, remaining_amount: amount, price, expiration, ..*order };
    let r = Step { order: Some(next), transfers };
    proof {
        reveal_with_fuel(escrow_change, 3);
        if r@.transfers.len() == 1 {
            assert(r@.transfers.drop_last() =~= Seq::<Transfer>::empty());
        }
        assert(r@.transfers =~= resize_transfers(order.amount, amount));
    }
    Ok(r)
}

/// Withdraws an unfilled order on behalf of `caller`.
pub fn cancel_order(order: &Order, caller: &Address) -> (r: Result<Step, Error>)
    requires
        order.wf(),
    ensures
        outcome(r) == cancel_spec(*order, *caller),
        *caller != order.creator ==> r == Err::<Step, Error>(Error::Unauthorized),
        *caller == order.creator && !order.is_unfilled() ==> r == Err::<Step, Error>(Error::OrderPartiallyFilled),
        r matches Ok(s) ==> s.order is None && order.remaining_amount + escrow_change(s.transfers@) == 0,
{
    if !caller.same_as(&order.creator) {
        return Err(Error::Unauthorized);
    }
    if order.remaining_amount != order.amount {
        return Err(Error::OrderPartiallyFilled);
    }
    let transfers = vec![Transfer::EscrowToCreator { amount: order.amount }];
    let r = Step { order: None, transfers };
    proof {
        reveal_with_fuel(escrow_change, 3);
        assert(r@.transfers.drop_last() =~= Seq::<Transfer>::empty());
        assert(r@.transfers =~= cancel_spec(*order, *caller)->Ok_0.transfers);
    }
    Ok(r)
}

/// Returns the unsold units of an expired order to its creator and closes it.
/// Anyone may trigger this: the units only ever go to the creator.
pub fn settle_expired_order(order: &Order, now: i64) -> (r: Result<Step, Error>)
    requires
        order.wf(),
    ensures
        outcome(r) == settle_spec(*order, now),
        r is Err <==> now <= order.expiration,
        r matches Ok(s) ==> s.order is None && order.remaining_amount + escrow_change(s.transfers@) == 0,
{
    if now <= order.expiration {
        return Err(Error::OrderNotExpired);
    }
    let transfers = vec![Transfer::EscrowToCreator { amount: order.remaining_amount }];
    let r = Step { order: None, transfers };
    proof {
        reveal_with_fuel(escrow_change, 3);
        assert(r@.transfers.drop_last() =~= Seq::<Transfer>::empty());
        assert(r@.transfers =~= settle_spec(*order, now)->Ok_0.transfers);
    }
    Ok(r)
}

} // verus!
