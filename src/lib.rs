//! An escrow-backed, fixed-price over-the-counter market.
//!
//! A seller posts an order that locks a quantity of one asset in escrow; buyers
//! fill it in whole or in part against payment in a second asset. Every
//! lifecycle operation is a verified transition from an order record (and a
//! clock reading) to the next record and the list of fund movements to carry
//! out. [`Market`] keeps a set of orders together with their escrow balances.
pub mod address;
pub mod error;
pub mod laws;
pub mod lifecycle;
pub mod market;
pub mod order;

pub use address::{Address, NATIVE_SOL_MINT_BYTES};
pub use error::Error;
pub use lifecycle::{
    buy_tokens, cancel_order, compute_expiration, create_order, modify_order, settle_expired_order,
    transfer_price_to_creator, update_or_close_order,
};
pub use market::{Market, Slot};
pub use order::{Order, OrderUpdate, Step, Transfer, LAMPORTS_PER_SOL, SECONDS_PER_DAY};
