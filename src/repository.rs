//! A day-by-day trading ledger over a net asset value history.
//!
//! Each call of `pass`, `invest` or `redeem` consumes the next day of the
//! history and records that day's holding.
use crate::date::Date;
use crate::error::Error;
use crate::units::{div_floor, div_units, mul_floor, mul_units, UNIT};
use vstd::prelude::*;

verus! {

/// An order handed to a fee rule.
#[derive(Clone, Copy, Debug, PartialEq, Eq, Structural)]
pub enum Order {
    Investment { date: Date, net_asset_value: u64, investment: u64 },
    Redemption { date: Date, net_asset_value: u64, redemption: u64 },
}

impl Order {
    /// What the order is worth before its fee: the money invested, or the
    /// value of the shares redeemed.
    pub open spec fn gross(self) -> int {
        match self {
            Order::Investment { investment, .. } => investment as int,
            Order::Redemption { net_asset_value, redemption, .. } => mul_floor(
                net_asset_value as int,
                redemption as int,
            ),
        }
    }
}

/// An order as the ledger booked it.
#[derive(Clone, Copy, Debug, PartialEq, Eq, Structural)]
pub enum Transaction {
    Investment { date: Date, net_asset_value: u64, investment: u64, share: u64, fee: u64 },
    Redemption { date: Date, net_asset_value: u64, redemption: u64, money: u64, fee: u64 },
}

/// A fee policy: the fee charged on an order. Implementations may keep
/// state across orders, such as the lots bought so far.
pub trait Rule: Sized {
    /// The rule, in its state `self`, may charge `fee` on `order` and be
    /// left as `after`.
    spec fn charges(&self, order: Order, after: Self, fee: u64) -> bool;

    /// The fee on `order`, never more than what the order is worth.
    fn fee(&mut self, order: Order) -> (fee: u64)
        ensures
            old(self).charges(order, *final(self), fee),
            fee <= order.gross(),
    ;
}

/// A rule that charges nothing.
pub struct NoFee;

impl Rule for NoFee {
    open spec fn charges(&self, order: Order, after: Self, fee: u64) -> bool {
        fee == 0
    }

    fn fee(&mut self, order: Order) -> (fee: u64) {
        0
    }
}

/// The holding at the end of one day.
#[derive(Clone, Copy, Debug, PartialEq, Eq, Structural)]
pub struct DailyInfo {
    pub transaction_id: usize,
    pub holding_price: u64,
    pub holding_share: u64,
    pub cumulative_investment: u64,
    pub cumulative_redemption: u64,
}

/// The holding before the first day.
pub open spec fn empty_info() -> DailyInfo {
    DailyInfo {
        transaction_id: 0,
        holding_price: 0,
        holding_share: 0,
        cumulative_investment: 0,
        cumulative_redemption: 0,
    }
}

/// The holding at the end of the last recorded day.
pub open spec fn last_info(infos: Seq<DailyInfo>) -> DailyInfo {
    if infos.len() == 0 {
        empty_info()
    } else {
        infos.last()
    }
}

/// Shares bought by `investment` after `fee` at `net_asset_value`.
pub open spec fn investment_share(net_asset_value: int, investment: int, fee: int) -> int {
    div_floor(investment - fee, net_asset_value)
}

/// Average cost per share after buying `share` shares for `investment`.
pub open spec fn average_price(info: DailyInfo, investment: int, share: int) -> int {
    let total = info.holding_share + share;
    if total == 0 {
        info.holding_price as int
    } else {
        div_floor(mul_floor(info.holding_price as int, info.holding_share as int) + investment, total)
    }
}

/// Whether an investment of `investment`, booked as transaction `id`,
/// fits whatever its fee: the shares it could buy, the holding with them,
/// the money held and invested, and the id.
pub open spec fn investment_fits(info: DailyInfo, id: int, net_asset_value: int, investment: int) -> bool {
    let most = investment_share(net_asset_value, investment, 0);
    &&& most <= u64::MAX
    &&& info.holding_share + most <= u64::MAX
    &&& mul_floor(info.holding_price as int, info.holding_share as int) + investment <= u64::MAX
    &&& info.cumulative_investment + investment <= u64::MAX
    &&& id <= usize::MAX
}

/// Average cost per share after buying `share` shares for `investment`,
/// held as `u64::MAX` where it does not fit.
pub open spec fn average_price_held(info: DailyInfo, investment: int, share: int) -> int {
    let p = average_price(info, investment, share);
    if p <= u64::MAX {
        p
    } else {
        u64::MAX as int
    }
}

/// The holding after an investment charged `fee`, booked as transaction
/// `id`.
pub open spec fn invested(
    info: DailyInfo,
    id: int,
    net_asset_value: int,
    investment: int,
    fee: int,
) -> DailyInfo {
    let share = investment_share(net_asset_value, investment, fee);
    DailyInfo {
        transaction_id: id as usize,
        holding_price: average_price_held(info, investment, share) as u64,
        holding_share: (info.holding_share + share) as u64,
        cumulative_investment: (info.cumulative_investment + investment) as u64,
        cumulative_redemption: info.cumulative_redemption,
    }
}

/// Whether a redemption worth `value` before its fee, booked as transaction
/// `id`, fits whatever its fee.
pub open spec fn redemption_fits(info: DailyInfo, id: int, value: int) -> bool {
    &&& value <= u64::MAX
    &&& info.cumulative_redemption + value <= u64::MAX
    &&& id <= usize::MAX
}

/// The holding after a redemption of `redemption` shares that paid out
/// `money`, booked as transaction `id`.
pub open spec fn redeemed(info: DailyInfo, id: int, redemption: int, money: int) -> DailyInfo {
    DailyInfo {
        transaction_id: id as usize,
        holding_price: info.holding_price,
        holding_share: (info.holding_share - redemption) as u64,
        cumulative_investment: info.cumulative_investment,
        cumulative_redemption: (info.cumulative_redemption + money) as u64,
    }
}

pub(crate) proof fn lemma_fee_lowers_share(nav: int, investment: int, fee: int)
    requires
        nav > 0,
        0 <= fee <= investment,
    ensures
        0 <= investment_share(nav, investment, fee) <= investment_share(nav, investment, 0),
{
    let u = UNIT as int;
    assert((investment - fee) * u <= investment * u) by (nonlinear_arith)
        requires fee >= 0, u >= 0;
    assert((investment - fee) * u / nav <= investment * u / nav) by (nonlinear_arith)
        requires (investment - fee) * u <= investment * u, nav > 0;
    assert((investment - fee) * u / nav >= 0) by (nonlinear_arith)
        requires investment - fee >= 0, nav > 0, u > 0;
}

pub struct Repository<R: Rule> {
    rule: R,
    net_asset_value_history: Vec<(Date, u64)>,
    transactions: Vec<Transaction>,
    daily_infos: Vec<DailyInfo>,
}

impl DailyInfo {
    /// Index of the transaction booked on this day, if any.
    pub fn transaction_id(&self) -> (r: Option<usize>)
        ensures
            r == (if self.transaction_id == 0 {
                None
            } else {
                Some((self.transaction_id - 1) as usize)
            }),
    {
        if self.transaction_id == 0 {
            None
        } else {
            Some(self.transaction_id - 1)
        }
    }

    pub fn holding_price(&self) -> (r: u64)
        ensures
            r == self.holding_price,
    {
        self.holding_price
    }

    pub fn holding_share(&self) -> (r: u64)
        ensures
            r == self.holding_share,
    {
        self.holding_share
    }

    pub fn cumulative_investment(&self) -> (r: u64)
        ensures
            r == self.cumulative_investment,
    {
        self.cumulative_investment
    }

    pub fn cumulative_redemption(&self) -> (r: u64)
        ensures
            r == self.cumulative_redemption,
    {
        self.cumulative_redemption
    }

    /// Money paid out less money paid in.
    pub fn cumulative_income(&self) -> (r: i128)
        ensures
            r == self.cumulative_redemption - self.cumulative_investment,
    {
        self.cumulative_redemption as i128 - self.cumulative_investment as i128
    }
}

impl<R: Rule> Repository<R> {
    /// The fee rule in its current state.
    pub closed spec fn rule_state(&self) -> R {
        self.rule
    }

    pub closed spec fn history(&self) -> Seq<(Date, u64)> {
        self.net_asset_value_history@
    }

    pub closed spec fn infos(&self) -> Seq<DailyInfo> {
        self.daily_infos@
    }

    pub closed spec fn booked(&self) -> Seq<Transaction> {
        self.transactions@
    }

    /// Every net asset value is positive and no day goes past the history.
    pub open spec fn wf(&self) -> bool {
        &&& self.history().len() >= 1
        &&& forall|i: int| 0 <= i < self.history().len() ==> #[trigger] self.history()[i].1 > 0
        &&& self.infos().len() <= self.history().len()
    }

    /// The history, the days and the transactions are those of `other`.
    pub open spec fn same_ledger(&self, other: &Self) -> bool {
        &&& self.history() == other.history()
        &&& self.infos() == other.infos()
        &&& self.booked() == other.booked()
    }

    /// The ledger after an investment of `investment` charged `fee`.
    pub open spec fn invest_outcome(
        &self,
        after: &Self,
        investment: int,
        fee: int,
        r: Result<(), Error>,
    ) -> bool {
        let day = self.infos().len() as int;
        let (date, nav) = self.history()[day];
        let info = last_info(self.infos());
        let id = self.booked().len() + 1int;
        if day >= self.history().len() || !investment_fits(info, id, nav as int, investment) {
            r == Err::<(), Error>(Error::Overflow) && after.same_ledger(self)
        } else if fee > investment {
            r == Err::<(), Error>(Error::Insufficient) && after.same_ledger(self)
        } else {
            &&& r == Ok::<(), Error>(())
            &&& after.history() == self.history()
            &&& after.infos() == self.infos().push(invested(info, id, nav as int, investment, fee))
            &&& after.booked() == self.booked().push(
                Transaction::Investment {
                    date,
                    net_asset_value: nav,
                    investment: investment as u64,
                    share: investment_share(nav as int, investment, fee) as u64,
                    fee: fee as u64,
                },
            )
        }
    }

    /// The ledger after a redemption of `redemption` shares charged `fee`.
    pub open spec fn redeem_outcome(
        &self,
        after: &Self,
        redemption: int,
        fee: int,
        r: Result<(), Error>,
    ) -> bool {
        let day = self.infos().len() as int;
        let (date, nav) = self.history()[day];
        let info = last_info(self.infos());
        let id = self.booked().len() + 1int;
        let value = mul_floor(nav as int, redemption);
        if day >= self.history().len() {
            r == Err::<(), Error>(Error::Overflow) && after.same_ledger(self)
        } else if info.holding_share < redemption {
            r == Err::<(), Error>(Error::Insufficient) && after.same_ledger(self)
        } else if !redemption_fits(info, id, value) {
            r == Err::<(), Error>(Error::Overflow) && after.same_ledger(self)
        } else if fee > value {
            r == Err::<(), Error>(Error::Insufficient) && after.same_ledger(self)
        } else {
            &&& r == Ok::<(), Error>(())
            &&& after.history() == self.history()
            &&& after.infos() == self.infos().push(redeemed(info, id, redemption, value - fee))
            &&& after.booked() == self.booked().push(
                Transaction::Redemption {
                    date,
                    net_asset_value: nav,
                    redemption: redemption as u64,
                    money: (value - fee) as u64,
                    fee: fee as u64,
                },
            )
        }
    }

    /// A ledger over `net_asset_value_history`, which needs at least one day.
    pub fn new(rule: R, net_asset_value_history: Vec<(Date, u64)>) -> (r: Result<Self, Error>)
        requires
            forall|i: int|
                0 <= i < net_asset_value_history.len() ==> #[trigger] net_asset_value_history[i].1
                    > 0,
        ensures
            net_asset_value_history.len() == 0 ==> r == Err::<Self, Error>(Error::Insufficient),
            net_asset_value_history.len() >= 1 ==> r is Ok,
            r matches Ok(repo) ==> {
                &&& repo.rule_state() == rule
                &&& repo.wf()
                &&& repo.history() == net_asset_value_history@
                &&& repo.infos().len() == 0
                &&& repo.booked().len() == 0
            },
    {
        if net_asset_value_history.len() >= 1 {
            Ok(
                Repository {
                    rule,
                    net_asset_value_history,
                    transactions: Vec::new(),
                    daily_infos: Vec::new(),
                },
            )
        } else {
            Err(Error::Insufficient)
        }
    }

    /// Number of days of the history.
    pub fn len(&self) -> (r: usize)
        ensures
            r == self.history().len(),
    {
        self.net_asset_value_history.len()
    }

    /// The holding at the end of each day so far.
    pub fn daily_infos(&self) -> (r: &[DailyInfo])
        ensures
            r@ == self.infos(),
    {
        self.daily_infos.as_slice()
    }

    /// The transactions booked so far.
    pub fn transactions(&self) -> (r: &[Transaction])
        ensures
            r@ == self.booked(),
    {
        self.transactions.as_slice()
    }

    /// The date and net asset value of the next day, or `Overflow` once the
    /// history is exhausted.
    pub fn check(&self) -> (r: Result<(Date, u64), Error>)
        ensures
            self.infos().len() < self.history().len() ==> r == Ok::<(Date, u64), Error>(
                self.history()[self.infos().len() as int],
            ),
            self.infos().len() >= self.history().len() ==> r == Err::<(Date, u64), Error>(
                Error::Overflow,
            ),
    {
        let day = self.daily_infos.len();
        if day < self.net_asset_value_history.len() {
            Ok(self.net_asset_value_history[day])
        } else {
            Err(Error::Overflow)
        }
    }

    fn last(&self) -> (r: DailyInfo)
        ensures
            r == last_info(self.infos()),
    {
        let n = self.daily_infos.len();
        if n == 0 {
            DailyInfo {
                transaction_id: 0,
                holding_price: 0,
                holding_share: 0,
                cumulative_investment: 0,
                cumulative_redemption: 0,
            }
        } else {
            self.daily_infos[n - 1]
        }
    }

    /// Lets the next day go by without a transaction.
    pub fn pass(&mut self) -> (r: Result<(), Error>)
        requires
            old(self).wf(),
        ensures
            final(self).rule_state() == old(self).rule_state(),
            final(self).wf(),
            final(self).history() == old(self).history(),
            final(self).booked() == old(self).booked(),
            old(self).infos().len() >= old(self).history().len() ==> r == Err::<(), Error>(
                Error::Overflow,
            ) && final(self).infos() == old(self).infos(),
            old(self).infos().len() < old(self).history().len() ==> r == Ok::<(), Error>(())
                && final(self).infos() == old(self).infos().push(
                DailyInfo { transaction_id: 0, ..last_info(old(self).infos()) },
            ),
    {
        if self.daily_infos.len() >= self.net_asset_value_history.len() {
            Err(Error::Overflow)
        } else {
            let mut info = self.last();
            info.transaction_id = 0;
            self.daily_infos.push(info);
            Ok(())
        }
    }

    /// Whether an investment of `investment` on the next day fits
    /// whatever its fee.
    fn investment_room(&self, investment: u64) -> (r: bool)
        requires
            self.wf(),
            self.infos().len() < self.history().len(),
        ensures
            r == investment_fits(
                last_info(self.infos()),
                self.booked().len() + 1int,
                self.history()[self.infos().len() as int].1 as int,
                investment as int,
            ),
    {
        let (_, nav) = self.net_asset_value_history[self.daily_infos.len()];
        let info = self.last();
        let most = match div_units(investment, nav) {
            Some(s) => s,
            None => return false,
        };
        if info.holding_share.checked_add(most).is_none() {
            return false;
        }
        let held = match mul_units(info.holding_price, info.holding_share) {
            Some(h) => h,
            None => {
                proof {
                    assert(mul_floor(info.holding_price as int, info.holding_share as int) >= 0)
                        by (nonlinear_arith);
                }
                return false;
            },
        };
        held.checked_add(investment).is_some() && info.cumulative_investment.checked_add(
            investment,
        ).is_some() && self.transactions.len() < usize::MAX
    }

    /// Whether a redemption of `redemption` shares on the next day fits
    /// whatever its fee.
    fn redemption_room(&self, redemption: u64) -> (r: bool)
        requires
            self.wf(),
            self.infos().len() < self.history().len(),
        ensures
            r == redemption_fits(
                last_info(self.infos()),
                self.booked().len() + 1int,
                mul_floor(self.history()[self.infos().len() as int].1 as int, redemption as int),
            ),
    {
        let (_, nav) = self.net_asset_value_history[self.daily_infos.len()];
        let info = self.last();
        let value = match mul_units(nav, redemption) {
            Some(v) => v,
            None => return false,
        };
        info.cumulative_redemption.checked_add(value).is_some() && self.transactions.len()
            < usize::MAX
    }

    /// Invests `investment` on the next day, charged the fee `fee`.
    pub fn invest_with_fee(&mut self, investment: u64, fee: u64) -> (r: Result<(), Error>)
        requires
            old(self).wf(),
        ensures
            final(self).rule_state() == old(self).rule_state(),
            final(self).wf(),
            old(self).invest_outcome(final(self), investment as int, fee as int, r),
    {
        let day = self.daily_infos.len();
        if day >= self.net_asset_value_history.len() || !self.investment_room(investment) {
            return Err(Error::Overflow);
        }
        if fee > investment {
            return Err(Error::Insufficient);
        }
        let (date, nav) = self.net_asset_value_history[day];
        let info = self.last();
        proof {
            lemma_fee_lowers_share(nav as int, investment as int, fee as int);
        }
        let share = div_units(investment - fee, nav).unwrap();
        let total = info.holding_share + share;
        let cost = mul_units(info.holding_price, info.holding_share).unwrap() + investment;
        let price = if total == 0 {
            info.holding_price
        } else {
            match div_units(cost, total) {
                Some(p) => p,
                None => u64::MAX,
            }
        };
        let id = self.transactions.len() + 1;
        self.transactions.push(
            Transaction::Investment { date, net_asset_value: nav, investment, share, fee },
        );
        self.daily_infos.push(
            DailyInfo {
                transaction_id: id,
                holding_price: price,
                holding_share: total,
                cumulative_investment: info.cumulative_investment + investment,
                cumulative_redemption: info.cumulative_redemption,
            },
        );
        Ok(())
    }

    /// Invests `investment` on the next day, charged the fee that the rule
    /// asks for it. The rule is asked once, and only once every check that
    /// can fail has passed: then the investment succeeds.
    pub fn invest(&mut self, investment: u64) -> (r: Result<(), Error>)
        requires
            old(self).wf(),
        ensures
            final(self).wf(),
            ({
                let day = old(self).infos().len() as int;
                let (date, nav) = old(self).history()[day];
                if day >= old(self).history().len() || !investment_fits(
                    last_info(old(self).infos()),
                    old(self).booked().len() + 1int,
                    nav as int,
                    investment as int,
                ) {
                    &&& r == Err::<(), Error>(Error::Overflow)
                    &&& final(self).same_ledger(old(self))
                    &&& final(self).rule_state() == old(self).rule_state()
                } else {
                    &&& r == Ok::<(), Error>(())
                    &&& exists|fee: u64|
                        {
                            &&& old(self).rule_state().charges(
                                Order::Investment { date, net_asset_value: nav, investment },
                                final(self).rule_state(),
                                fee,
                            )
                            &&& #[trigger] old(self).invest_outcome(
                                final(self),
                                investment as int,
                                fee as int,
                                r,
                            )
                        }
                }
            }),
    {
        let day = self.daily_infos.len();
        if day >= self.net_asset_value_history.len() || !self.investment_room(investment) {
            return Err(Error::Overflow);
        }
        let (date, net_asset_value) = self.net_asset_value_history[day];
        let order = Order::Investment { date, net_asset_value, investment };
        let fee = self.rule.fee(order);
        assert(self.same_ledger(old(self)));
        let ghost charged = self.rule;
        let r = self.invest_with_fee(investment, fee);
        assert(old(self).invest_outcome(self, investment as int, fee as int, r));
        assert(self.rule_state() == charged);
        r
    }

    /// Redeems `redemption` shares on the next day, charged the fee `fee`.
    pub fn redeem_with_fee(&mut self, redemption: u64, fee: u64) -> (r: Result<(), Error>)
        requires
            old(self).wf(),
        ensures
            final(self).rule_state() == old(self).rule_state(),
            final(self).wf(),
            old(self).redeem_outcome(final(self), redemption as int, fee as int, r),
    {
        let day = self.daily_infos.len();
        if day >= self.net_asset_value_history.len() {
            return Err(Error::Overflow);
        }
        let info = self.last();
        if info.holding_share < redemption {
            return Err(Error::Insufficient);
        }
        if !self.redemption_room(redemption) {
            return Err(Error::Overflow);
        }
        let (date, nav) = self.net_asset_value_history[day];
        let value = mul_units(nav, redemption).unwrap();
        if fee > value {
            return Err(Error::Insufficient);
        }
        let money = value - fee;
        let id = self.transactions.len() + 1;
        self.transactions.push(
            Transaction::Redemption { date, net_asset_value: nav, redemption, money, fee },
        );
        self.daily_infos.push(
            DailyInfo {
                transaction_id: id,
                holding_price: info.holding_price,
                holding_share: info.holding_share - redemption,
                cumulative_investment: info.cumulative_investment,
                cumulative_redemption: info.cumulative_redemption + money,
            },
        );
        Ok(())
    }

    /// Redeems `redemption` shares on the next day, charged the fee that the
    /// rule asks for it. The rule is asked once, and only once every check
    /// that can fail has passed: then the redemption succeeds.
    pub fn redeem(&mut self, redemption: u64) -> (r: Result<(), Error>)
        requires
            old(self).wf(),
        ensures
            final(self).wf(),
            ({
                let day = old(self).infos().len() as int;
                let (date, nav) = old(self).history()[day];
                let info = last_info(old(self).infos());
                if day >= old(self).history().len() {
                    &&& r == Err::<(), Error>(Error::Overflow)
                    &&& final(self).same_ledger(old(self))
                    &&& final(self).rule_state() == old(self).rule_state()
                } else if info.holding_share < redemption {
                    &&& r == Err::<(), Error>(Error::Insufficient)
                    &&& final(self).same_ledger(old(self))
                    &&& final(self).rule_state() == old(self).rule_state()
                } else if !redemption_fits(
                    info,
                    old(self).booked().len() + 1int,
                    mul_floor(nav as int, redemption as int),
                ) {
                    &&& r == Err::<(), Error>(Error::Overflow)
                    &&& final(self).same_ledger(old(self))
                    &&& final(self).rule_state() == old(self).rule_state()
                } else {
                    &&& r == Ok::<(), Error>(())
                    &&& exists|fee: u64|
                        {
                            &&& old(self).rule_state().charges(
                                Order::Redemption { date, net_asset_value: nav, redemption },
                                final(self).rule_state(),
                                fee,
                            )
                            &&& #[trigger] old(self).redeem_outcome(
                                final(self),
                                redemption as int,
                                fee as int,
                                r,
                            )
                        }
                }
            }),
    {
        let day = self.daily_infos.len();
        if day >= self.net_asset_value_history.len() {
            return Err(Error::Overflow);
        }
        if self.last().holding_share < redemption {
            return Err(Error::Insufficient);
        }
        if !self.redemption_room(redemption) {
            return Err(Error::Overflow);
        }
        let (date, net_asset_value) = self.net_asset_value_history[day];
        let order = Order::Redemption { date, net_asset_value, redemption };
        let fee = self.rule.fee(order);
        assert(self.same_ledger(old(self)));
        let ghost charged = self.rule;
        let r = self.redeem_with_fee(redemption, fee);
        assert(old(self).redeem_outcome(self, redemption as int, fee as int, r));
        assert(self.rule_state() == charged);
        r
    }
}

} // verus!
