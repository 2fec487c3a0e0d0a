//! A streaming order-book signal engine with a position ledger.
//!
//! Every quantity is an integer at a fixed scale (see [`units`]): prices in
//! ticks, amounts in lots, rates and ratios in parts per million, cash at the
//! product of the three.  Sums and products are exact.  Quotients are rounded
//! away from zero at one part per million, and every decision that compares
//! a quotient with a threshold is the decision on the exact quotient.

pub mod units;
pub mod signals;
pub mod config;
pub mod ledger;
pub mod risk;
pub mod engine;
