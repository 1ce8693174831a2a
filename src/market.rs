use vstd::prelude::*;

use crate::address::Address;
use crate::error::Error;
use crate::lifecycle::{buy_spec, cancel_spec, create_spec, modify_spec, settle_spec};
use crate::order::{escrow_change, outcome, remaining_of, Order, OrderUpdate, Step, Transfer};

verus! {

/// One stored order together with the balance held in its escrow.
#[derive(Clone, Copy, Debug, PartialEq, Eq)]
pub struct Slot {
    pub order: Order,
    pub escrow: u64,
}

/// The identity of a stored order.
pub open spec fn slot_key(s: Slot) -> (Address, u64) {
    (s.order.creator, s.order.seed)
}

/// No two slots share an identity.
pub open spec fn unique_keys(m: Seq<Slot>) -> bool {
    forall|i: int, j: int|
        0 <= i < m.len() && 0 <= j < m.len() && i != j ==> slot_key(#[trigger] m[i]) != slot_key(#[trigger] m[j])
}

/// The slot stored under `k`, if any.
pub open spec fn find_slot(m: Seq<Slot>, k: (Address, u64)) -> Option<Slot> {
    if exists|i: int| 0 <= i < m.len() && slot_key(#[trigger] m[i]) == k {
        Some(m[choose|i: int| 0 <= i < m.len() && slot_key(#[trigger] m[i]) == k])
    } else {
        None
    }
}

/// The slot that a successful step leaves under the order's identity: the
/// new record with exactly its remaining units in escrow, or nothing.
pub open spec fn slot_after(o: Option<Order>) -> Option<Slot> {
    match o {
        Some(o) => Some(Slot { order: o, escrow: o.remaining_amount }),
        None => None,
    }
}

proof fn lemma_find_at(m: Seq<Slot>, i: int)
    requires
        unique_keys(m),
        0 <= i < m.len(),
    ensures
        find_slot(m, slot_key(m[i])) == Some(m[i]),
{
    let k = slot_key(m[i]);
    let j = choose|j: int| 0 <= j < m.len() && slot_key(#[trigger] m[j]) == k;
    assert(slot_key(m[j]) == k);
}

proof fn lemma_update_frame(m: Seq<Slot>, i: int, v: Slot)
    requires
        unique_keys(m),
        0 <= i < m.len(),
        slot_key(v) == slot_key(m[i]),
    ensures
        unique_keys(m.update(i, v)),
        find_slot(m.update(i, v), slot_key(v)) == Some(v),
        forall|k: (Address, u64)| k != slot_key(v) ==> find_slot(m.update(i, v), k) == #[trigger] find_slot(m, k),
{
    let n = m.update(i, v);
    assert(unique_keys(n)) by {
        assert forall|a: int, b: int| 0 <= a < n.len() && 0 <= b < n.len() && a != b implies slot_key(
            #[trigger] n[a],
        ) != slot_key(#[trigger] n[b]) by {
            assert(slot_key(n[a]) == slot_key(m[a]));
            assert(slot_key(n[b]) == slot_key(m[b]));
        }
    }
    lemma_find_at(n, i);
    assert forall|k: (Address, u64)| k != slot_key(v) implies find_slot(n, k) == #[trigger] find_slot(m, k) by {
        if exists|j: int| 0 <= j < m.len() && slot_key(#[trigger] m[j]) == k {
            let j = choose|j: int| 0 <= j < m.len() && slot_key(#[trigger] m[j]) == k;
            assert(j != i);
            assert(n[j] == m[j]);
            lemma_find_at(m, j);
            lemma_find_at(n, j);
        } else {
            assert forall|j: int| 0 <= j < n.len() implies slot_key(#[trigger] n[j]) != k by {
                if j != i {
                    assert(n[j] == m[j]);
                }
            }
        }
    }
}

proof fn lemma_remove_frame(m: Seq<Slot>, i: int)
    requires
        unique_keys(m),
        0 <= i < m.len(),
    ensures
        unique_keys(m.remove(i)),
        find_slot(m.remove(i), slot_key(m[i])) is None,
        forall|k: (Address, u64)| k != slot_key(m[i]) ==> find_slot(m.remove(i), k) == #[trigger] find_slot(m, k),
{
    let n = m.remove(i);
    assert forall|j: int| 0 <= j < n.len() implies (#[trigger] n[j]) == m[if j < i { j } else { j + 1 }] by {}
    assert(unique_keys(n)) by {
        assert forall|a: int, b: int| 0 <= a < n.len() && 0 <= b < n.len() && a != b implies slot_key(
            #[trigger] n[a],
        ) != slot_key(#[trigger] n[b]) by {
            let a2 = if a < i { a } else { a + 1 };
            let b2 = if b < i { b } else { b + 1 };
            assert(n[a] == m[a2]);
            assert(n[b] == m[b2]);
        }
    }
    assert forall|j: int| 0 <= j < n.len() implies slot_key(#[trigger] n[j]) != slot_key(m[i]) by {
        let j2 = if j < i { j } else { j + 1 };
        assert(n[j] == m[j2]);
    }
    assert forall|k: (Address, u64)| k != slot_key(m[i]) implies find_slot(n, k) == #[trigger] find_slot(m, k) by {
        if exists|j: int| 0 <= j < m.len() && slot_key(#[trigger] m[j]) == k {
            let j = choose|j: int| 0 <= j < m.len() && slot_key(#[trigger] m[j]) == k;
            assert(j != i);
            let j2 = if j < i { j } else { j - 1 };
            assert(n[j2] == m[j]);
            lemma_find_at(m, j);
            lemma_find_at(n, j2);
        } else {
            assert forall|j: int| 0 <= j < n.len() implies slot_key(#[trigger] n[j]) != k by {
                let j2 = if j < i { j } else { j + 1 };
                assert(n[j] == m[j2]);
            }
        }
    }
}

proof fn lemma_push_frame(m: Seq<Slot>, v: Slot)
    requires
        unique_keys(m),
        find_slot(m, slot_key(v)) is None,
    ensures
        unique_keys(m.push(v)),
        find_slot(m.push(v), slot_key(v)) == Some(v),
        forall|k: (Address, u64)| k != slot_key(v) ==> find_slot(m.push(v), k) == #[trigger] find_slot(m, k),
{
    let n = m.push(v);
    assert forall|j: int| 0 <= j < m.len() implies slot_key(#[trigger] m[j]) != slot_key(v) by {
        if slot_key(m[j]) == slot_key(v) {
            assert(exists|i: int| 0 <= i < m.len() && slot_key(#[trigger] m[i]) == slot_key(v));
        }
    }
    assert(unique_keys(n)) by {
        assert forall|a: int, b: int| 0 <= a < n.len() && 0 <= b < n.len() && a != b implies slot_key(
            #[trigger] n[a],
        ) != slot_key(#[trigger] n[b]) by {
            if a < m.len() {
                assert(n[a] == m[a]);
            }
            if b < m.len() {
                assert(n[b] == m[b]);
            }
        }
    }
    lemma_find_at(n, m.len() as int);
    assert forall|k: (Address, u64)| k != slot_key(v) implies find_slot(n, k) == #[trigger] find_slot(m, k) by {
        if exists|j: int| 0 <= j < m.len() && slot_key(#[trigger] m[j]) == k {
            let j = choose|j: int| 0 <= j < m.len() && slot_key(#[trigger] m[j]) == k;
            assert(n[j] == m[j]);
            lemma_find_at(m, j);
            lemma_find_at(n, j);
        } else {
            assert forall|j: int| 0 <= j < n.len() implies slot_key(#[trigger] n[j]) != k by {
                if j < m.len() {
                    assert(n[j] == m[j]);
                }
            }
        }
    }
}

/// The escrow balance after `ts` are applied to `balance`.
fn apply_escrow(balance: u64, ts: &Vec<Transfer>) -> (r: u64)
    requires
        ts@.len() <= 2,
        0 <= balance + escrow_change(ts@) <= u64::MAX,
    ensures
        r == balance + escrow_change(ts@),
{
    let mut acc: i128 = balance as i128;
    let mut i: usize = 0;
    while i < ts.len()
        invariant
            i <= ts@.len(),
            ts@.len() <= 2,
            acc == balance + escrow_change(ts@.subrange(0, i as int)),
            -(i as int) * 0x1_0000_0000_0000_0000 <= acc - balance <= (i as int) * 0x1_0000_0000_0000_0000,
        decreases ts@.len() - i,
    {
        proof {
            assert(ts@.subrange(0, i as int + 1).drop_last() =~= ts@.subrange(0, i as int));
        }
        match ts[i] {
            Transfer::CreatorToEscrow { amount } => {
                acc = acc + amount as i128;
            },
            Transfer::EscrowToCreator { amount } => {
                acc = acc - amount as i128;
            },
            Transfer::EscrowToBuyer { amount } => {
                acc = acc - amount as i128;
            },
            Transfer::BuyerToCreatorLamports { .. } => {},
            Transfer::BuyerToCreatorTokens { .. } => {},
        }
        i = i + 1;
    }
    proof {
        assert(ts@.subrange(0, ts@.len() as int) =~= ts@);
    }
    acc as u64
}

/// A store of open orders keyed by `(creator, seed)`, each with the balance
/// held in its escrow.
pub struct Market {
    slots: Vec<Slot>,
}

impl View for Market {
    type V = Seq<Slot>;

    closed spec fn view(&self) -> Seq<Slot> {
        self.slots@
    }
}

impl Market {
    /// Every stored order is well formed, its escrow holds exactly its
    /// remaining units, and no two orders share an identity.
    pub open spec fn wf(&self) -> bool {
        &&& unique_keys(self@)
        &&& forall|i: int|
            0 <= i < self@.len() ==> (#[trigger] self@[i]).order.wf() && self@[i].escrow == self@[i].order.remaining_amount
    }

    /// The slot stored for `(creator, seed)`, if any.
    pub open spec fn get(&self, creator: Address, seed: u64) -> Option<Slot> {
        find_slot(self@, (creator, seed))
    }

    /// An empty market.
    pub fn new() -> (r: Market)
        ensures
            r.wf(),
            r@.len() == 0,
            forall|c: Address, s: u64| r.get(c, s) is None,
    {
        Market { slots: Vec::new() }
    }

    /// Number of open orders.
    pub fn len(&self) -> (r: usize)
        ensures
            r == self@.len(),
    {
        self.slots.len()
    }

    fn position(&self, creator: &Address, seed: u64) -> (r: Option<usize>)
        requires
            self.wf(),
        ensures
            r matches Some(i) ==> i < self@.len() && slot_key(self@[i as int]) == (*creator, seed)
                && self.get(*creator, seed) == Some(self@[i as int]),
            r is None ==> self.get(*creator, seed) is None,
    {
        let mut i: usize = 0;
        while i < self.slots.len()
            invariant
                self.wf(),
                i <= self.slots@.len(),
                forall|j: int| 0 <= j < i ==> slot_key(#[trigger] self.slots@[j]) != (*creator, seed),
            decreases self.slots@.len() - i,
        {
            let s = &self.slots[i];
            if s.order.seed == seed && s.order.creator.same_as(creator) {
                proof {
                    lemma_find_at(self@, i as int);
                }
                return Some(i);
            }
            i = i + 1;
        }
        None
    }

    /// The slot stored for `(creator, seed)`, if any.
    pub fn lookup(&self, creator: &Address, seed: u64) -> (r: Option<Slot>)
        requires
            self.wf(),
        ensures
            r == self.get(*creator, seed),
    {
        match self.position(creator, seed) {
            Some(i) => Some(self.slots[i]),
            None => None,
        }
    }

    /// Stores the outcome of a successful step on the slot at `i`.
    fn commit(&mut self, i: usize, step: &Step)
        requires
            old(self).wf(),
            i < old(self)@.len(),
            step@.transfers.len() <= 2,
            step.order matches Some(o) ==> o.wf() && o.creator == old(self)@[i as int].order.creator
                && o.seed == old(self)@[i as int].order.seed,
            old(self)@[i as int].order.remaining_amount + escrow_change(step@.transfers) == remaining_of(step.order),
        ensures
            final(self).wf(),
            final(self).get(old(self)@[i as int].order.creator, old(self)@[i as int].order.seed) == slot_after(step.order),
            forall|c: Address, s: u64|
                (c, s) != slot_key(old(self)@[i as int]) ==> #[trigger] final(self).get(c, s) == old(self).get(c, s),
    {
        proof {
            lemma_find_at(self@, i as int);
        }
        match step.order {
            Some(o) => {
                let escrow = apply_escrow(self.slots[i].escrow, &step.transfers);
                let slot = Slot { order: o, escrow };
                proof {
                    lemma_update_frame(self@, i as int, slot);
                }
                self.slots.set(i, slot);
            },
            None => {
                proof {
                    lemma_remove_frame(self@, i as int);
                }
                self.slots.remove(i);
            },
        }
    }
    /// CreateOrder on the store: refused with `OrderAlreadyExists` when
    /// `(creator, seed)` is taken; otherwise as [`crate::create_order`], and the
    /// new order is stored with its full amount in escrow.
    pub fn create_order(
        &mut self,
        creator: Address,
        seed: u64,
        price: u64,
        amount: u64,
        duration_days: i64,
        price_mint: Address,
        order_bump: u8,
        now: i64,
    ) -> (r: Result<Step, Error>)
        requires
            old(self).wf(),
        ensures
            final(self).wf(),
            old(self).get(creator, seed) is Some ==> r == Err::<Step, Error>(Error::OrderAlreadyExists),
            old(self).get(creator, seed) is None ==> outcome(r) == create_spec(
                creator,
                seed,
                price,
                amount,
                duration_days,
                price_mint,
                order_bump,
                now,
            ),
            r is Err ==> final(self)@ == old(self)@,
            r matches Ok(st) ==> final(self).get(creator, seed) == slot_after(st.order),
            forall|c: Address, s: u64|
                (c, s) != (creator, seed) ==> #[trigger] final(self).get(c, s) == old(self).get(c, s),
    {
        if self.position(&creator, seed).is_some() {
            return Err(Error::OrderAlreadyExists);
        }
        let step = match crate::lifecycle::create_order(
            creator,
            seed,
            price,
            amount,
            duration_days,
            price_mint,
            order_bump,
            now,
        ) {
            Ok(st) => st,
            Err(e) => {
                return Err(e);
            },
        };
        if let Some(order) = step.order {
            let escrow = apply_escrow(0, &step.transfers);
            let slot = Slot { order, escrow };
            proof {
                lemma_push_frame(self@, slot);
            }
            self.slots.push(slot);
        }
        Ok(step)
    }

    /// BuyTokens on the store: refused with `OrderNotFound` when no order is
    /// stored under `(creator, seed)`; otherwise as [`crate::buy_tokens`], and
    /// the order is stored shrunk, or removed once nothing remains.
    pub fn buy_tokens(&mut self, creator: &Address, seed: u64, now: i64, amount: u64, price_decimals: u8) -> (r: Result<Step, Error>)
        requires
            old(self).wf(),
        ensures
            final(self).wf(),
            old(self).get(*creator, seed) is None ==> r == Err::<Step, Error>(Error::OrderNotFound),
            old(self).get(*creator, seed) matches Some(slot) ==> outcome(r) == buy_spec(slot.order, now, amount, price_decimals),
            r is Err ==> final(self)@ == old(self)@,
            r matches Ok(st) ==> final(self).get(*creator, seed) == slot_after(st.order),
            forall|c: Address, s: u64|
                (c, s) != (*creator, seed) ==> #[trigger] final(self).get(c, s) == old(self).get(c, s),
    {
        let i = match self.position(creator, seed) {
            Some(i) => i,
            None => {
                return Err(Error::OrderNotFound);
            },
        };
        let order = self.slots[i].order;
        let step = match crate::lifecycle::buy_tokens(&order, now, amount, price_decimals) {
            Ok(st) => st,
            Err(e) => {
                return Err(e);
            },
        };
        self.commit(i, &step);
        Ok(step)
    }

    /// ModifyOrder on the store, on behalf of `caller`: refused with
    /// `OrderNotFound` when no order is stored under `(creator, seed)`;
    /// otherwise as [`crate::modify_order`], and the changed order is stored
    /// with its new amount in escrow.
    pub fn modify_order(
        &mut self,
        creator: &Address,
        seed: u64,
        caller: &Address,
        now: i64,
        update: OrderUpdate,
    ) -> (r: Result<Step, Error>)
        requires
            old(self).wf(),
        ensures
            final(self).wf(),
            old(self).get(*creator, seed) is None ==> r == Err::<Step, Error>(Error::OrderNotFound),
            old(self).get(*creator, seed) matches Some(slot) ==> outcome(r) == modify_spec(slot.order, *caller, now, update),
            r is Err ==> final(self)@ == old(self)@,
            r matches Ok(st) ==> final(self).get(*creator, seed) == slot_after(st.order),
            forall|c: Address, s: u64|
                (c, s) != (*creator, seed) ==> #[trigger] final(self).get(c, s) == old(self).get(c, s),
    {
        let i = match self.position(creator, seed) {
            Some(i) => i,
            None => {
                return Err(Error::OrderNotFound);
            },
        };
        let order = self.slots[i].order;
        let step = match crate::lifecycle::modify_order(&order, caller, now, update) {
            Ok(st) => st,
            Err(e) => {
                return Err(e);
            },
        };
        self.commit(i, &step);
        Ok(step)
    }

    /// CancelOrder on the store, on behalf of `caller`: refused with
    /// `OrderNotFound` when no order is stored under `(creator, seed)`;
    /// otherwise as [`crate::cancel_order`], and the order is removed.
    pub fn cancel_order(&mut self, creator: &Address, seed: u64, caller: &Address) -> (r: Result<Step, Error>)
        requires
            old(self).wf(),
        ensures
            final(self).wf(),
            old(self).get(*creator, seed) is None ==> r == Err::<Step, Error>(Error::OrderNotFound),
            old(self).get(*creator, seed) matches Some(slot) ==> outcome(r) == cancel_spec(slot.order, *caller),
            r is Err ==> final(self)@ == old(self)@,
            r is Ok ==> final(self).get(*creator, seed) is None,
            forall|c: Address, s: u64|
                (c, s) != (*creator, seed) ==> #[trigger] final(self).get(c, s) == old(self).get(c, s),
    {
        let i = match self.position(creator, seed) {
            Some(i) => i,
            None => {
                return Err(Error::OrderNotFound);
            },
        };
        let order = self.slots[i].order;
        let step = match crate::lifecycle::cancel_order(&order, caller) {
            Ok(st) => st,
            Err(e) => {
                return Err(e);
            },
        };
        self.commit(i, &step);
        Ok(step)
    }

    /// SettleExpiredOrder on the store: refused with `OrderNotFound` when no
    /// order is stored under `(creator, seed)`; otherwise as
    /// [`crate::settle_expired_order`], and the order is removed.
    pub fn settle_expired_order(&mut self, creator: &Address, seed: u64, now: i64) -> (r: Result<Step, Error>)
        requires
            old(self).wf(),
        ensures
            final(self).wf(),
            old(self).get(*creator, seed) is None ==> r == Err::<Step, Error>(Error::OrderNotFound),
            old(self).get(*creator, seed) matches Some(slot) ==> outcome(r) == settle_spec(slot.order, now),
            r is Err ==> final(self)@ == old(self)@,
            r is Ok ==> final(self).get(*creator, seed) is None,
            forall|c: Address, s: u64|
                (c, s) != (*creator, seed) ==> #[trigger] final(self).get(c, s) == old(self).get(c, s),
    {
        let i = match self.position(creator, seed) {
            Some(i) => i,
            None => {
                return Err(Error::OrderNotFound);
            },
        };
        let order = self.slots[i].order;
        let step = match crate::lifecycle::settle_expired_order(&order, now) {
            Ok(st) => st,
            Err(e) => {
                return Err(e);
            },
        };
        self.commit(i, &step);
        Ok(step)
    }
}

} // verus!
