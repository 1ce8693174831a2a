use vstd::prelude::*;

verus! {

/// Why a lifecycle operation was refused. A refused operation changes nothing.
#[derive(Clone, Copy, Debug, PartialEq, Eq, Structural)]
pub enum Error {
    /// The caller is not the order's creator.
    Unauthorized,
    /// A purchase was attempted after the order's deadline.
    OrderExpired,
    /// Settlement was attempted before the order's deadline.
    OrderNotExpired,
    /// The requested purchase exceeds the units still held in escrow.
    AmountExceedsAvailable,
    /// Modification or cancellation was attempted after a fill.
    OrderPartiallyFilled,
    /// Checked arithmetic on a deadline or a payment overflowed.
    Overflow,
    /// No order is recorded under the given creator and seed.
    OrderNotFound,
    /// An order is already recorded under the given creator and seed.
    OrderAlreadyExists,
}

impl Error {
    /// A short human-readable description.
    pub fn message(&self) -> (r: &'static str) {
        match self {
            Error::Unauthorized => "You are not authorized to perform this action.",
            Error::OrderExpired => "The order has expired.",
            Error::OrderNotExpired => "The order is not expired yet.",
            Error::AmountExceedsAvailable => "Amount exceeds available tokens.",
            Error::OrderPartiallyFilled => "Order has been partially filled and cannot be modified.",
            Error::Overflow => "Overflow error.",
            Error::OrderNotFound => "No order exists for this creator and seed.",
            Error::OrderAlreadyExists => "An order already exists for this creator and seed.",
        }
    }
}

} // verus!
