//! A trade as booked by a trading rule.
use crate::date::Date;
use crate::units::{div_floor, mul_floor, UNIT};
use vstd::prelude::*;

verus! {

#[derive(Clone, Copy, Debug, PartialEq, Eq, Structural)]
pub enum Trade {
    /// Money `cost` spent at `price` per share.
    Buy { date: Date, price: u64, cost: u64 },
    /// `share` shares sold at `price` per share.
    Sell { date: Date, price: u64, share: u64 },
}

impl Trade {
    /// Shares the trade adds to the holding: bought ones count up, sold
    /// ones down. A purchase at price zero buys nothing.
    pub open spec fn share_delta(self) -> int {
        match self {
            Trade::Buy { price, cost, .. } => if price == 0 {
                0
            } else {
                div_floor(cost as int, price as int)
            },
            Trade::Sell { share, .. } => -share,
        }
    }

    /// Money the trade adds to what is invested: spent money counts up,
    /// money received down.
    pub open spec fn money_delta(self) -> int {
        match self {
            Trade::Buy { cost, .. } => cost as int,
            Trade::Sell { price, share, .. } => -mul_floor(price as int, share as int),
        }
    }

    pub open spec fn price_of(self) -> u64 {
        match self {
            Trade::Buy { price, .. } => price,
            Trade::Sell { price, .. } => price,
        }
    }

    pub fn buy(date: Date, price: u64, cost: u64) -> (r: Self)
        ensures
            r == (Trade::Buy { date, price, cost }),
    {
        Trade::Buy { date, price, cost }
    }

    pub fn sell(date: Date, price: u64, share: u64) -> (r: Self)
        ensures
            r == (Trade::Sell { date, price, share }),
    {
        Trade::Sell { date, price, share }
    }

    pub fn date(&self) -> (r: Date)
        ensures
            r == (match self {
                Trade::Buy { date, .. } => date,
                Trade::Sell { date, .. } => date,
            }),
    {
        match self {
            Trade::Buy { date, .. } => *date,
            Trade::Sell { date, .. } => *date,
        }
    }

    pub fn price(&self) -> (r: u64)
        ensures
            r == self.price_of(),
    {
        match self {
            Trade::Buy { price, .. } => *price,
            Trade::Sell { price, .. } => *price,
        }
    }

    pub fn share(&self) -> (r: i128)
        ensures
            r == self.share_delta(),
    {
        match self {
            Trade::Buy { price, cost, .. } => {
                if *price == 0 {
                    0
                } else {
                    proof {
                        assert((*cost as int) * (UNIT as int) <= (u64::MAX as int) * (UNIT as int))
                            by (nonlinear_arith)
                            requires *cost <= u64::MAX;
                        assert((*cost as int) * (UNIT as int) / (*price as int) <= (*cost as int)
                            * (UNIT as int)) by (nonlinear_arith)
                            requires *price >= 1, *cost >= 0;
                        assert((*cost as int) * (UNIT as int) / (*price as int) >= 0) by (nonlinear_arith)
                            requires *price >= 1, *cost >= 0;
                    }
                    ((*cost as i128) * (UNIT as i128)) / (*price as i128)
                }
            },
            Trade::Sell { share, .. } => -(*share as i128),
        }
    }

    pub fn money(&self) -> (r: i128)
        ensures
            r == self.money_delta(),
    {
        match self {
            Trade::Buy { cost, .. } => *cost as i128,
            Trade::Sell { price, share, .. } => {
                proof {
                    assert((*price as int) * (*share as int) <= (u64::MAX as int) * (u64::MAX as int))
                        by (nonlinear_arith)
                        requires *price <= u64::MAX, *share <= u64::MAX;
                    assert((*price as int) * (*share as int) >= 0) by (nonlinear_arith)
                        requires *price >= 0, *share >= 0;
                }
                let v: u128 = (*price as u128) * (*share as u128) / (UNIT as u128);
                -(v as i128)
            },
        }
    }
}

} // verus!
