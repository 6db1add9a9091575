//! A trading rule that charges 1.5% on shares held less than a week.
use crate::date::Date;
use crate::sim::repository::{RepositoryError, TradingRule};
use crate::sim::trade::Trade;
use crate::units::{div_floor, div_units, mul_floor, UNIT};
use std::collections::VecDeque;
use vstd::prelude::*;

verus! {

/// Smallest amount of money a purchase may spend.
pub const MINIMUM_COST: u64 = 10 * UNIT;

/// Days a share must be held to be sold free of charge.
pub const FREE_AFTER_DAYS: i64 = 7;

/// Rate charged on shares held less than `FREE_AFTER_DAYS`, in thousandths.
pub const SHORT_HOLD_PER_MILLE: u64 = 15;

/// Selling `left` shares on day `date` from `lots`, oldest first: the shares
/// taken that were held less than a week, and the lots that remain; `None`
/// where the lots run out first.
pub open spec fn week_sell(lots: Seq<(Date, u64)>, left: int, date: int) -> Option<(int, Seq<(Date, u64)>)>
    decreases lots.len(),
{
    if left <= 0 {
        Some((0, lots))
    } else if lots.len() == 0 {
        None
    } else {
        let (d, s) = lots[0];
        let young = date - d.days < FREE_AFTER_DAYS;
        if s < left {
            match week_sell(lots.drop_first(), left - s, date) {
                Some((fee_share, rest)) => Some((fee_share + if young { s as int } else { 0 }, rest)),
                None => None,
            }
        } else {
            Some((if young { left } else { 0 }, seq![(d, (s - left) as u64)] + lots.drop_first()))
        }
    }
}

/// Price per share of a sale of `share` shares of which `fee_share` were
/// held less than a week: the net asset value less 1.5% of it, in the
/// proportion of those shares.
pub open spec fn sale_price(nav: int, fee_share: int, share: int) -> int {
    if share == 0 {
        nav
    } else {
        nav - mul_floor(nav, fee_share * SHORT_HOLD_PER_MILLE * UNIT / (share * 1000))
    }
}

/// Whether the lots hold enough shares to sell `share` of them.
fn can_sell(lots: &VecDeque<(Date, u64)>, share: u64, date: Date) -> (r: bool)
    ensures
        r == week_sell(lots@, share as int, date.days as int) is Some,
{
    let mut rest: u64 = share;
    let mut i: usize = 0;
    assert(lots@.skip(0) =~= lots@);
    while rest > 0 && i < lots.len()
        invariant
            i <= lots@.len(),
            (week_sell(lots@, share as int, date.days as int) is Some) == (week_sell(
                lots@.skip(i as int),
                rest as int,
                date.days as int,
            ) is Some),
        decreases lots@.len() - i, rest,
    {
        let (_, s) = lots[i];
        let ghost tail = lots@.skip(i as int);
        assert(tail[0] == lots@[i as int]);
        assert(tail.drop_first() =~= lots@.skip(i + 1));
        if s < rest {
            rest = rest - s;
            i = i + 1;
        } else {
            rest = 0;
        }
    }
    rest == 0
}

pub struct WeekRule {
    holding_shares: VecDeque<(Date, u64)>,
}

impl WeekRule {
    /// The lots held, oldest first, each dated the day it can first be sold.
    pub closed spec fn lots(&self) -> Seq<(Date, u64)> {
        self.holding_shares@
    }

    pub fn new() -> (r: Self)
        ensures
            r.lots() == Seq::<(Date, u64)>::empty(),
    {
        WeekRule { holding_shares: VecDeque::new() }
    }

    /// `after` is this rule once a purchase for `cost` at `nav` on `date`
    /// answered `r`: one of at least `MINIMUM_COST` is queued as a lot dated
    /// the next day.
    pub open spec fn bought(
        &self,
        date: Date,
        nav: u64,
        cost: u64,
        after: Self,
        r: Result<Trade, RepositoryError>,
    ) -> bool {
        let ok = cost >= MINIMUM_COST && nav > 0 && date.days < i32::MAX && div_floor(
            cost as int,
            nav as int,
        ) <= u64::MAX;
        &&& ok ==> r == Ok::<Trade, RepositoryError>(Trade::Buy { date, price: nav, cost })
            && after.lots() == self.lots().push(
            (Date { days: (date.days + 1) as i32 }, div_floor(cost as int, nav as int) as u64),
        )
        &&& !ok ==> r == Err::<Trade, RepositoryError>(RepositoryError::BuyError) && after.lots()
            == self.lots()
    }

    /// `after` is this rule once a sale of `share` shares at `nav` on
    /// `date` answered `r`.
    pub open spec fn sold(
        &self,
        date: Date,
        nav: u64,
        share: u64,
        after: Self,
        r: Result<Trade, RepositoryError>,
    ) -> bool {
        match week_sell(self.lots(), share as int, date.days as int) {
            Some((fee_share, rest)) => {
                &&& r == Ok::<Trade, RepositoryError>(
                    Trade::Sell {
                        date,
                        price: sale_price(nav as int, fee_share, share as int) as u64,
                        share,
                    },
                )
                &&& after.lots() == rest
            },
            None => {
                &&& r == Err::<Trade, RepositoryError>(RepositoryError::SellError)
                &&& after.lots() == self.lots()
            },
        }
    }

    /// Buys for `cost` at `nav`, at least `MINIMUM_COST`: the shares bought
    /// are queued as a lot dated the next day.
    pub fn buy_lot(&mut self, date: Date, nav: u64, cost: u64) -> (r: Result<Trade, RepositoryError>)
        ensures
            old(self).bought(date, nav, cost, *final(self), r),
    {
        if cost < MINIMUM_COST || nav == 0 || date.days == i32::MAX {
            return Err(RepositoryError::BuyError);
        }
        let share = match div_units(cost, nav) {
            Some(s) => s,
            None => return Err(RepositoryError::BuyError),
        };
        self.holding_shares.push_back((Date { days: date.days + 1 }, share));
        Ok(Trade::buy(date, nav, cost))
    }

    /// Sells `share` shares at `nav`, taking the oldest lots first; the
    /// price is cut by 1.5% in the proportion of shares held less than a
    /// week. `SellError`, with the lots left as they were, where they hold
    /// fewer shares than asked.
    pub fn sell_lots(&mut self, date: Date, nav: u64, share: u64) -> (r: Result<Trade, RepositoryError>)
        ensures
            old(self).sold(date, nav, share, *final(self), r),
    {
        if !can_sell(&self.holding_shares, share, date) {
            return Err(RepositoryError::SellError);
        }
        let mut fee_share: u64 = 0;
        let mut share_left: u64 = share;
        let ghost start = self.holding_shares@;
        while share_left > 0
            invariant
                start == old(self).lots(),
                week_sell(start, share as int, date.days as int) is Some,
                fee_share + share_left <= share,
                week_sell(start, share as int, date.days as int) == match week_sell(
                    self.holding_shares@,
                    share_left as int,
                    date.days as int,
                ) {
                    Some((f, rest)) => Some((f + fee_share, rest)),
                    None => None::<(int, Seq<(Date, u64)>)>,
                },
            ensures
                share_left == 0,
                week_sell(start, share as int, date.days as int) == Some(
                    (fee_share as int, self.holding_shares@),
                ),
            decreases self.holding_shares@.len(), share_left,
        {
            let ghost before = self.holding_shares@;
            let (brought_date, brought_share) = match self.holding_shares.pop_front() {
                Some(lot) => lot,
                None => {
                    assert(self.holding_shares@.len() == 0);
                    assert(week_sell(self.holding_shares@, share_left as int, date.days as int) is None);
                    assert(week_sell(start, share as int, date.days as int) is None);
                    return Err(RepositoryError::SellError);
                },
            };
            assert(before.drop_first() =~= self.holding_shares@);
            let young = date.days as i64 - (brought_date.days as i64) < FREE_AFTER_DAYS;
            if brought_share < share_left {
                if young {
                    fee_share = fee_share + brought_share;
                }
                share_left = share_left - brought_share;
            } else {
                if young {
                    fee_share = fee_share + share_left;
                }
                self.holding_shares.push_front((brought_date, brought_share - share_left));
                assert(self.holding_shares@ =~= seq![(brought_date, (brought_share - share_left) as u64)]
                    + before.drop_first());
                share_left = 0;
                break;
            }
        }
        proof {
            assert(fee_share <= share);
        }
        let price = if share == 0 {
            nav
        } else {
            proof {
                assert((fee_share as int) * 15 * (UNIT as int) <= (share as int) * 15 * (UNIT as int))
                    by (nonlinear_arith)
                    requires fee_share <= share;
                assert((share as int) * 15 * (UNIT as int) <= (u64::MAX as int) * 15 * (UNIT as int))
                    by (nonlinear_arith)
                    requires share <= u64::MAX;
                assert((fee_share as int) * 15 * (UNIT as int) >= 0) by (nonlinear_arith)
                    requires fee_share >= 0;
                assert((share as int) * 1000 >= 1000) by (nonlinear_arith)
                    requires share >= 1;
                let num = (fee_share as int) * 15 * (UNIT as int);
                let den = (share as int) * 1000;
                assert(num / den <= num / 1000) by (nonlinear_arith)
                    requires den >= 1000, num >= 0;
                assert(num / 1000 * 1000 <= num) by (nonlinear_arith)
                    requires num >= 0;
                assert(num / den <= (UNIT as int) * 15 / 1000 * 1) by (nonlinear_arith)
                    requires num <= (share as int) * 15 * (UNIT as int), den == (share as int) * 1000, share >= 1;
            }
            let rate: u128 = ((fee_share as u128) * 15 * (UNIT as u128)) / ((share as u128) * 1000);
            proof {
                assert((nav as int) * (rate as int) <= (nav as int) * (UNIT as int)) by (nonlinear_arith)
                    requires rate <= UNIT, nav >= 0;
                assert((nav as int) * (UNIT as int) <= (u64::MAX as int) * (UNIT as int)) by (nonlinear_arith)
                    requires nav <= u64::MAX;
                assert((nav as int) * (rate as int) / (UNIT as int) <= (nav as int) * (UNIT as int) / (UNIT as int))
                    by (nonlinear_arith)
                    requires (nav as int) * (rate as int) <= (nav as int) * (UNIT as int);
                assert((nav as int) * (UNIT as int) / (UNIT as int) == nav as int) by (nonlinear_arith);
                assert((nav as int) * (rate as int) >= 0) by (nonlinear_arith)
                    requires nav >= 0, rate >= 0;
            }
            let cut: u128 = (nav as u128) * rate / (UNIT as u128);
            nav - (cut as u64)
        };
        Ok(Trade::sell(date, price, share))
    }
}

impl TradingRule for WeekRule {
    open spec fn buys(
        &self,
        date: Date,
        nav: u64,
        cost: u64,
        after: Self,
        r: Result<Trade, RepositoryError>,
    ) -> bool {
        self.bought(date, nav, cost, after, r)
    }

    open spec fn sells(
        &self,
        date: Date,
        nav: u64,
        share: u64,
        after: Self,
        r: Result<Trade, RepositoryError>,
    ) -> bool {
        self.sold(date, nav, share, after, r)
    }

    fn buy(&mut self, date: Date, nav: u64, cost: u64) -> Result<Trade, RepositoryError> {
        self.buy_lot(date, nav, cost)
    }

    fn sell(&mut self, date: Date, nav: u64, share: u64) -> Result<Trade, RepositoryError> {
        self.sell_lots(date, nav, share)
    }
}

} // verus!
