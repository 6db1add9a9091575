//! A holding whose trades are confirmed one day after they are made.
use crate::date::Date;
use crate::sim::trade::Trade;
use vstd::prelude::*;

verus! {

#[derive(Clone, Copy, Debug, PartialEq, Eq, Structural)]
pub enum RepositoryError {
    BuyError,
    SellError,
    /// The holding or the money invested would not fit.
    Overflow,
}

impl RepositoryError {
    pub fn to_string(&self) -> (r: String)
        ensures
            r@ == (match self {
                RepositoryError::BuyError => "BuyError"@,
                RepositoryError::SellError => "SellError"@,
                RepositoryError::Overflow => "Overflow"@,
            }),
    {
        match self {
            RepositoryError::BuyError => String::from_str("BuyError"),
            RepositoryError::SellError => String::from_str("SellError"),
            RepositoryError::Overflow => String::from_str("Overflow"),
        }
    }
}

/// What an order returns once the rule answered `t`.
pub open spec fn order_result(t: Result<Trade, RepositoryError>) -> Result<(), RepositoryError> {
    match t {
        Ok(_) => Ok(()),
        Err(e) => Err(e),
    }
}

/// How buys and sells turn into trades.
pub trait TradingRule: Sized {
    /// The rule, in its state `self`, may answer `r` to a purchase for
    /// `cost` at `nav` on `date` and be left as `after`.
    spec fn buys(
        &self,
        date: Date,
        nav: u64,
        cost: u64,
        after: Self,
        r: Result<Trade, RepositoryError>,
    ) -> bool;

    /// The rule, in its state `self`, may answer `r` to a sale of `share`
    /// shares at `nav` on `date` and be left as `after`.
    spec fn sells(
        &self,
        date: Date,
        nav: u64,
        share: u64,
        after: Self,
        r: Result<Trade, RepositoryError>,
    ) -> bool;

    fn buy(&mut self, date: Date, nav: u64, cost: u64) -> (r: Result<Trade, RepositoryError>)
        ensures
            old(self).buys(date, nav, cost, *final(self), r),
    ;

    fn sell(&mut self, date: Date, nav: u64, share: u64) -> (r: Result<Trade, RepositoryError>)
        ensures
            old(self).sells(date, nav, share, *final(self), r),
    ;
}

/// The holding as mathematical values.
pub struct Book {
    pub history: Seq<Trade>,
    pub unconfirmed: Option<Trade>,
    pub holding_share: int,
    pub invested_money: int,
}

impl Book {
    /// Whether confirming the unconfirmed trade keeps the totals in range.
    pub open spec fn confirm_fits(self) -> bool {
        match self.unconfirmed {
            Some(t) => {
                &&& i128::MIN <= self.holding_share + t.share_delta() <= i128::MAX
                &&& i128::MIN <= self.invested_money + t.money_delta() <= i128::MAX
            },
            None => true,
        }
    }

    /// The book once the rule answered `t` to an order: a trade waits a
    /// day to be confirmed, a refusal changes nothing.
    pub open spec fn answered(self, t: Result<Trade, RepositoryError>) -> Book {
        match t {
            Ok(trade) => self.updated(Some(trade)),
            Err(_) => self,
        }
    }

    /// A day passes: the unconfirmed trade is confirmed and `next` waits in
    /// its place.
    pub open spec fn updated(self, next: Option<Trade>) -> Book {
        match self.unconfirmed {
            Some(t) => Book {
                history: self.history.push(t),
                unconfirmed: next,
                holding_share: self.holding_share + t.share_delta(),
                invested_money: self.invested_money + t.money_delta(),
            },
            None => Book { unconfirmed: next, ..self },
        }
    }
}

pub struct Repository<TR: TradingRule> {
    code: String,
    trading_rule: TR,
    trading_history: Vec<Trade>,
    uncomfirmed_trade: Option<Trade>,
    holding_share: i128,
    invested_money: i128,
}

impl<TR: TradingRule> Repository<TR> {
    pub closed spec fn book(&self) -> Book {
        Book {
            history: self.trading_history@,
            unconfirmed: self.uncomfirmed_trade,
            holding_share: self.holding_share as int,
            invested_money: self.invested_money as int,
        }
    }

    /// The trading rule in its current state.
    pub closed spec fn rule_state(&self) -> TR {
        self.trading_rule
    }

    pub closed spec fn code_text(&self) -> Seq<char> {
        self.code@
    }

    pub fn new(code: &str, trading_rule: TR) -> (r: Self)
        ensures
            r.code_text() == code@,
            r.rule_state() == trading_rule,
            r.book() == (Book {
                history: Seq::empty(),
                unconfirmed: None,
                holding_share: 0,
                invested_money: 0,
            }),
    {
        Repository {
            code: code.to_owned(),
            trading_rule,
            trading_history: Vec::new(),
            uncomfirmed_trade: None,
            holding_share: 0,
            invested_money: 0,
        }
    }

    pub fn code(&self) -> (r: &str)
        ensures
            r@ == self.code_text(),
    {
        self.code.as_str()
    }

    pub fn trading_history(&self) -> (r: &[Trade])
        ensures
            r@ == self.book().history,
    {
        self.trading_history.as_slice()
    }

    pub fn uncomfirmed_trade(&self) -> (r: &Option<Trade>)
        ensures
            *r == self.book().unconfirmed,
    {
        &self.uncomfirmed_trade
    }

    pub fn holding_share(&self) -> (r: i128)
        ensures
            r == self.book().holding_share,
    {
        self.holding_share
    }

    pub fn invested_money(&self) -> (r: i128)
        ensures
            r == self.book().invested_money,
    {
        self.invested_money
    }

    /// A day passes: the unconfirmed trade is confirmed into the holding
    /// and the history, and `trade_opt` waits in its place. `Overflow`, with
    /// nothing changed, where a total would not fit.
    pub fn update(&mut self, trade_opt: Option<Trade>) -> (r: Result<(), RepositoryError>)
        ensures
            final(self).rule_state() == old(self).rule_state(),
            final(self).code_text() == old(self).code_text(),
            old(self).book().confirm_fits() ==> r == Ok::<(), RepositoryError>(()) && final(self).book() == old(self).book().updated(trade_opt),
            !old(self).book().confirm_fits() ==> r == Err::<(), RepositoryError>(
                RepositoryError::Overflow,
            ) && final(self).book() == old(self).book(),
    {
        if let Some(trade) = self.uncomfirmed_trade {
            let share = match self.holding_share.checked_add(trade.share()) {
                Some(s) => s,
                None => return Err(RepositoryError::Overflow),
            };
            let money = match self.invested_money.checked_add(trade.money()) {
                Some(m) => m,
                None => return Err(RepositoryError::Overflow),
            };
            self.holding_share = share;
            self.invested_money = money;
            self.trading_history.push(trade);
        }
        self.uncomfirmed_trade = trade_opt;
        Ok(())
    }

    /// A day passes with no trade.
    pub fn pass(&mut self) -> (r: Result<(), RepositoryError>)
        ensures
            final(self).rule_state() == old(self).rule_state(),
            final(self).code_text() == old(self).code_text(),
            old(self).book().confirm_fits() ==> r == Ok::<(), RepositoryError>(()) && final(self).book() == old(self).book().updated(None),
            !old(self).book().confirm_fits() ==> r == Err::<(), RepositoryError>(
                RepositoryError::Overflow,
            ) && final(self).book() == old(self).book(),
    {
        self.update(None)
    }

    /// Buys for `cost` at `nav` through the trading rule, which is asked
    /// once; its trade waits a day to be confirmed. A zero cost is a
    /// `BuyError`, and a confirmation of the waiting trade that would not fit
    /// is an `Overflow`; the rule is not asked then, and nothing changes.
    pub fn buy(&mut self, date: Date, nav: u64, cost: u64) -> (r: Result<(), RepositoryError>)
        ensures
            final(self).code_text() == old(self).code_text(),
            cost == 0 || !old(self).book().confirm_fits() ==> {
                &&& r == Err::<(), RepositoryError>(
                    if cost == 0 {
                        RepositoryError::BuyError
                    } else {
                        RepositoryError::Overflow
                    },
                )
                &&& final(self).book() == old(self).book()
                &&& final(self).rule_state() == old(self).rule_state()
            },
            cost > 0 && old(self).book().confirm_fits() ==> exists|t: Result<Trade, RepositoryError>|
                {
                    &&& old(self).rule_state().buys(date, nav, cost, final(self).rule_state(), t)
                    &&& #[trigger] old(self).book().answered(t) == final(self).book()
                    &&& r == order_result(t)
                },
    {
        if cost == 0 {
            return Err(RepositoryError::BuyError);
        }
        if !self.confirm_fits() {
            return Err(RepositoryError::Overflow);
        }
        let t = self.trading_rule.buy(date, nav, cost);
        let ghost asked = self.trading_rule;
        let r = match t {
            Ok(trade) => self.update(Some(trade)),
            Err(e) => Err(e),
        };
        assert(old(self).book().answered(t) == self.book());
        assert(self.rule_state() == asked);
        r
    }

    /// Sells `share` shares at `nav` through the trading rule, which is
    /// asked once, where they are not zero and no more than the confirmed
    /// holding; else a `SellError`. A confirmation of the waiting trade that
    /// would not fit is an `Overflow`. The rule is not asked on an error
    /// before it, and nothing changes.
    pub fn sell(&mut self, date: Date, nav: u64, share: u64) -> (r: Result<(), RepositoryError>)
        ensures
            final(self).code_text() == old(self).code_text(),
            !(share > 0 && old(self).book().holding_share >= share) ==> {
                &&& r == Err::<(), RepositoryError>(RepositoryError::SellError)
                &&& final(self).book() == old(self).book()
                &&& final(self).rule_state() == old(self).rule_state()
            },
            share > 0 && old(self).book().holding_share >= share && !old(self).book().confirm_fits()
                ==> {
                &&& r == Err::<(), RepositoryError>(RepositoryError::Overflow)
                &&& final(self).book() == old(self).book()
                &&& final(self).rule_state() == old(self).rule_state()
            },
            share > 0 && old(self).book().holding_share >= share && old(self).book().confirm_fits()
                ==> exists|t: Result<Trade, RepositoryError>|
                {
                    &&& old(self).rule_state().sells(date, nav, share, final(self).rule_state(), t)
                    &&& #[trigger] old(self).book().answered(t) == final(self).book()
                    &&& r == order_result(t)
                },
    {
        if !(share > 0 && self.holding_share >= share as i128) {
            return Err(RepositoryError::SellError);
        }
        if !self.confirm_fits() {
            return Err(RepositoryError::Overflow);
        }
        let t = self.trading_rule.sell(date, nav, share);
        let ghost asked = self.trading_rule;
        let r = match t {
            Ok(trade) => self.update(Some(trade)),
            Err(e) => Err(e),
        };
        assert(old(self).book().answered(t) == self.book());
        assert(self.rule_state() == asked);
        r
    }

    /// Whether confirming the waiting trade keeps the totals in range.
    pub fn confirm_fits(&self) -> (r: bool)
        ensures
            r == self.book().confirm_fits(),
    {
        match self.uncomfirmed_trade {
            Some(t) => self.holding_share.checked_add(t.share()).is_some()
                && self.invested_money.checked_add(t.money()).is_some(),
            None => true,
        }
    }
}

} // verus!
