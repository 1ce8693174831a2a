use vstd::prelude::*;

use crate::address::Address;

verus! {

/// Seconds in one day: durations are given in days, deadlines in seconds.
pub const SECONDS_PER_DAY: i64 = 86400;

/// Smallest units of the native currency in one whole unit.
pub const LAMPORTS_PER_SOL: u64 = 1_000_000_000;

/// The persisted record of one open order, identified by `(creator, seed)`.
#[derive(Clone, Copy, Debug, PartialEq, Eq)]
pub struct Order {
    pub seed: u64,
    pub creator: Address,
    /// Nominal size as last set by creation or modification; fills leave it alone.
    pub amount: u64,
    /// Units still for sale; equal to the escrow balance between operations.
    pub remaining_amount: u64,
    /// Price of one unit, in whole units of `price_mint`.
    pub price: u64,
    pub price_mint: Address,
    /// Deadline in seconds: purchases are allowed up to and including it.
    pub expiration: i64,
    /// Material that rebuilds the custody authority's signing derivation.
    pub order_bump: u8,
}

impl Order {
    /// Well-formedness of a stored record.
    pub open spec fn wf(self) -> bool {
        self.remaining_amount <= self.amount
    }

    /// No unit of the order has been sold since it was last sized.
    pub open spec fn is_unfilled(self) -> bool {
        self.remaining_amount == self.amount
    }
}

/// One movement of funds that an operation asks the ledger to carry out.
#[derive(Clone, Copy, Debug, PartialEq, Eq, Structural)]
pub enum Transfer {
    /// Vault-asset units from the creator's holding into escrow, signed by the creator.
    CreatorToEscrow { amount: u64 },
    /// Vault-asset units from escrow back to the creator, signed by the custody authority.
    EscrowToCreator { amount: u64 },
    /// Vault-asset units from escrow to the buyer, signed by the custody authority.
    EscrowToBuyer { amount: u64 },
    /// Payment in the native currency's smallest unit, from the buyer to the creator.
    BuyerToCreatorLamports { lamports: u64 },
    /// Payment in the price token's smallest unit, from the buyer to the creator.
    BuyerToCreatorTokens { amount: u64 },
}

/// How one transfer changes the order's escrow balance.
pub open spec fn escrow_delta(t: Transfer) -> int {
    match t {
        Transfer::CreatorToEscrow { amount } => amount as int,
        Transfer::EscrowToCreator { amount } => -(amount as int),
        Transfer::EscrowToBuyer { amount } => -(amount as int),
        Transfer::BuyerToCreatorLamports { .. } => 0,
        Transfer::BuyerToCreatorTokens { .. } => 0,
    }
}

/// How a sequence of transfers changes the order's escrow balance.
pub open spec fn escrow_change(ts: Seq<Transfer>) -> int
    decreases ts.len(),
{
    if ts.len() == 0 {
        0
    } else {
        escrow_change(ts.drop_last()) + escrow_delta(ts.last())
    }
}

/// Units left for sale in the record after an operation; a closed record holds none.
pub open spec fn remaining_of(o: Option<Order>) -> int {
    match o {
        Some(o) => o.remaining_amount as int,
        None => 0,
    }
}

/// What a successful operation does: the record afterwards (`None` once it is
/// closed and its storage deposit returned to the creator) and the transfers
/// to carry out, in order, in the same atomic request.
#[derive(Debug)]
pub struct Step {
    pub order: Option<Order>,
    pub transfers: Vec<Transfer>,
}

/// The mathematical content of a [`Step`].
pub struct StepView {
    pub order: Option<Order>,
    pub transfers: Seq<Transfer>,
}

impl View for Step {
    type V = StepView;

    open spec fn view(&self) -> StepView {
        StepView { order: self.order, transfers: self.transfers@ }
    }
}

/// The view of an operation's outcome.
pub open spec fn outcome(r: Result<Step, crate::error::Error>) -> Result<StepView, crate::error::Error> {
    match r {
        Ok(s) => Ok(s@),
        Err(e) => Err(e),
    }
}

/// The three independent, optional changes of a modification; `None` leaves
/// the field as it is.
#[derive(Clone, Copy, Debug, PartialEq, Eq)]
pub struct OrderUpdate {
    pub amount: Option<u64>,
    pub price: Option<u64>,
    pub duration_days: Option<i64>,
}

} // verus!
