//! A per-client transaction ledger.
//!
//! Every client owns an account with a total and a held balance and a
//! permanent history of accepted deposits and withdrawals. Deposits,
//! withdrawals, disputes, resolutions and chargebacks are applied one at a
//! time; each is either carried out in full or rejected with an
//! [`user::ErrorKind`] and no effect.
//!
//! Amounts and balances are fixed-point integers counted in ten-thousandths
//! of a currency unit.

pub mod amount;
pub mod sums;
pub mod record;
pub mod user;
pub mod model;
pub mod engine;
pub mod laws;
