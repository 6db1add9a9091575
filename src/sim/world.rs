//! One day of the simulation: the market moves and a plan is carried out.
use crate::sim::bank::{Bank, BankError};
use crate::sim::market::Market;
use crate::sim::repository::{Repository, RepositoryError, TradingRule};
use crate::sim::trade::Trade;
use crate::strategy::Plan;
use crate::units::{mul_floor, mul_units};
use vstd::prelude::*;

verus! {

/// Why a day's plan failed.
#[derive(Clone, Copy, Debug, PartialEq, Eq, Structural)]
pub enum WorldError {
    Bank(BankError),
    Repository(RepositoryError),
}

pub struct World<TR: TradingRule> {
    bank: Bank,
    market: Market,
    repository: Repository<TR>,
}

impl<TR: TradingRule> World<TR> {
    pub closed spec fn bank_state(&self) -> Bank {
        self.bank
    }

    pub closed spec fn market_state(&self) -> Market {
        self.market
    }

    pub closed spec fn repository_state(&self) -> Repository<TR> {
        self.repository
    }

    pub open spec fn wf(&self) -> bool {
        self.market_state().wf()
    }

    pub fn new(bank: Bank, market: Market, repository: Repository<TR>) -> (r: Self)
        requires
            market.wf(),
        ensures
            r.wf(),
            r.bank_state() == bank,
            r.market_state() == market,
            r.repository_state() == repository,
    {
        World { bank, market, repository }
    }

    pub fn bank(&self) -> (r: &Bank)
        ensures
            *r == self.bank_state(),
    {
        &self.bank
    }

    pub fn market(&self) -> (r: &Market)
        ensures
            *r == self.market_state(),
    {
        &self.market
    }

    pub fn repository(&self) -> (r: &Repository<TR>)
        ensures
            *r == self.repository_state(),
    {
        &self.repository
    }

    /// Moves the market one day and carries out `plan` on it. A purchase
    /// is paid from the bank at once and refunded where the repository
    /// refuses it. A sale's proceeds, the rule's price times the shares, are
    /// deposited to arrive the next day. Returns `false`, with nothing
    /// changed, once the history is exhausted.
    pub fn update(&mut self, plan: Plan) -> (r: Result<bool, WorldError>)
        requires
            old(self).wf(),
        ensures
            final(self).wf(),
            ({
                let m = old(self).market_state();
                let exhausted = m.days_out() >= m.history().len();
                let (date, nav) = m.history()[m.days_out() as int];
                let bank = old(self).bank_state();
                let bank_after = final(self).bank_state();
                let repo = old(self).repository_state();
                let repo_after = final(self).repository_state();
                let book = repo.book();
                let book_after = repo_after.book();
                let bank_kept = bank_after.cash() == bank.cash() && bank_after.in_transit()
                    == bank.in_transit();
                let repo_kept = book_after == book && repo_after.rule_state() == repo.rule_state();
                &&& exhausted ==> {
                    &&& r == Ok::<bool, WorldError>(false)
                    &&& bank_after == bank
                    &&& repo_after == repo
                    &&& final(self).market_state().days_out() == m.days_out()
                    &&& final(self).market_state().history() == m.history()
                }
                &&& !exhausted ==> final(self).market_state().days_out() == m.days_out() + 1
                    && final(self).market_state().history() == m.history()
                &&& !exhausted ==> match plan {
                    Plan::Buy(cost) => if bank.cash() < cost {
                        &&& r == Err::<bool, WorldError>(WorldError::Bank(BankError::WithdrawError))
                        &&& bank_kept
                        &&& repo_kept
                    } else if cost == 0 || !book.confirm_fits() {
                        &&& r == Err::<bool, WorldError>(
                            WorldError::Repository(
                                if cost == 0 {
                                    RepositoryError::BuyError
                                } else {
                                    RepositoryError::Overflow
                                },
                            ),
                        )
                        &&& bank_kept
                        &&& repo_kept
                    } else {
                        &&& bank_after.in_transit() == bank.in_transit()
                        &&& exists|t: Result<Trade, RepositoryError>|
                            {
                                &&& repo.rule_state().buys(date, nav, cost, repo_after.rule_state(), t)
                                &&& #[trigger] book.answered(t) == book_after
                                &&& match t {
                                    Ok(_) => r == Ok::<bool, WorldError>(true) && bank_after.cash()
                                        == bank.cash() - cost,
                                    Err(e) => r == Err::<bool, WorldError>(WorldError::Repository(e))
                                        && bank_after.cash() == bank.cash(),
                                }
                            }
                    },
                    Plan::Sell(share) => if !(share > 0 && book.holding_share >= share) {
                        &&& r == Err::<bool, WorldError>(
                            WorldError::Repository(RepositoryError::SellError),
                        )
                        &&& bank_kept
                        &&& repo_kept
                    } else if !book.confirm_fits() {
                        &&& r == Err::<bool, WorldError>(
                            WorldError::Repository(RepositoryError::Overflow),
                        )
                        &&& bank_kept
                        &&& repo_kept
                    } else {
                        exists|t: Result<Trade, RepositoryError>|
                            {
                                &&& repo.rule_state().sells(date, nav, share, repo_after.rule_state(), t)
                                &&& #[trigger] book.answered(t) == book_after
                                &&& match t {
                                    Err(e) => r == Err::<bool, WorldError>(WorldError::Repository(e))
                                        && bank_kept,
                                    Ok(trade) => {
                                        let value = mul_floor(trade.price_of() as int, share as int);
                                        if value > u64::MAX || !bank.lands() {
                                            r == Err::<bool, WorldError>(
                                                WorldError::Bank(BankError::DepositError),
                                            ) && bank_kept
                                        } else {
                                            &&& r == Ok::<bool, WorldError>(true)
                                            &&& bank_after.cash() == bank.landed_cash()
                                            &&& bank_after.in_transit() == if value > 0 {
                                                Some(value as u64)
                                            } else {
                                                None::<u64>
                                            }
                                        }
                                    },
                                }
                            }
                    },
                    Plan::Pass => if book.confirm_fits() && bank.lands() {
                        &&& r == Ok::<bool, WorldError>(true)
                        &&& book_after == book.updated(None)
                        &&& bank_after.cash() == bank.landed_cash()
                        &&& bank_after.in_transit() is None
                    } else {
                        r is Err
                    },
                }
            }),
    {
        let (date, nav) = match self.market.next() {
            Some(day) => day,
            None => return Ok(false),
        };
        match plan {
            Plan::Buy(cost) => {
                if let Err(e) = self.bank.withdraw(cost) {
                    return Err(WorldError::Bank(e));
                }
                if let Err(e) = self.repository.buy(date, nav, cost) {
                    self.bank.refund(cost);
                    return Err(WorldError::Repository(e));
                }
            },
            Plan::Sell(share) => {
                if let Err(e) = self.repository.sell(date, nav, share) {
                    return Err(WorldError::Repository(e));
                }
                let price = match self.repository.uncomfirmed_trade() {
                    Some(t) => t.price(),
                    None => nav,
                };
                let value = match mul_units(price, share) {
                    Some(v) => v,
                    None => return Err(WorldError::Bank(BankError::DepositError)),
                };
                let landed = if value > 0 {
                    self.bank.deposit(value)
                } else {
                    self.bank.pass()
                };
                if let Err(e) = landed {
                    return Err(WorldError::Bank(e));
                }
            },
            Plan::Pass => {
                if let Err(e) = self.repository.pass() {
                    return Err(WorldError::Repository(e));
                }
                if let Err(e) = self.bank.pass() {
                    return Err(WorldError::Bank(e));
                }
            },
        }
        Ok(true)
    }
}

} // verus!
