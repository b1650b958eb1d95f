//! Accounting core of a crowdfunding investment vault, and the governance
//! record beside it.
//!
//! The vault accepts contributions toward a funding goal, skims an insurance
//! fee from each of them, records reported revenue and computes the
//! proportional payout owed to every contributor. All state is an explicit
//! value that the caller owns. The library reads no clock, knows no caller
//! and makes no remote call: the time, the caller's identity and the answers
//! of collaborating services are handed in as plain values.
//!
//! Shares are exact fractions and every division rounds down, so the same
//! ledger always yields the same payouts.

pub mod identity;
pub mod ledger;
pub mod text;
pub mod invest;
pub mod revenue;
pub mod payout;
pub mod coordinator;
pub mod vault;
pub mod governance;
pub mod laws;
