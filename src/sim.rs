//! A synchronous day-by-day simulation: each call of `World::update` moves
//! the market one day and carries out one plan against the bank and the
//! repository, whose effects land a day later.
pub mod bank;
pub mod market;
pub mod repository;
pub mod trade;
pub mod week_rule;
pub mod world;
