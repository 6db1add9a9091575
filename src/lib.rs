//! Settlement-delayed trading of a single fund position.
//!
//! The actors of the simulation (`market`, `bank`, `settlement` and the
//! `world` that drives them) are written here as state machines: each takes
//! its state and one inbound message, and returns the messages it sends.
//! Running them as tasks over channels is left to the caller. Lots are sold
//! oldest first (`fifo`), and fees depend on how long a lot was held.
//!
//! Two simpler designs stand beside them: `repository`, a ledger that books
//! one order per day of a history under a fee `Rule`, and `sim`, a day-by-day
//! world whose trades are confirmed a day late under a `TradingRule`.
//!
//! Quantities are fixed-point (`units`), dates are day numbers (`date`).
use vstd::prelude::*;

pub mod units;
pub mod bank;
pub mod date;
pub mod decimal;
pub mod error;
pub mod fifo;
pub mod market;
pub mod person;
pub mod repository;
pub mod settlement;
pub mod sim;
pub mod strategy;
pub mod world;
