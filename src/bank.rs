//! The bank actor: the investor's cash ledger.
use crate::date::Date;
use vstd::prelude::*;

verus! {

/// What the bank is asked.
#[derive(Clone, Copy, Debug, PartialEq, Eq, Structural)]
pub enum Message {
    /// A new trading day.
    Step(Date),
    /// The current balance.
    Balance,
    /// Add money to the balance.
    Deposit(u64),
    /// Whether the balance covers a purchase of `amount`, for request `id`.
    BankToRepository(u64, u64),
    /// Credit the proceeds `amount` of settled redemption `id`.
    RepositoryToBank(u64, u64),
    Stop,
}

/// What the bank answers.
#[derive(Clone, Copy, Debug, PartialEq, Eq, Structural)]
pub enum Reply {
    /// To the world: the step was taken.
    BankStepped,
    /// To the investor: the current balance.
    Balance(u64),
    /// A deposit was added; nobody is told.
    Deposited,
    /// A deposit that would not fit was refused; nobody is told.
    DepositRefused,
    /// To the repository: the funds of request `id` suffice.
    BankToRepositoryOk(u64),
    /// To the repository: the funds of request `id` fall short.
    BankToRepositoryErr(u64),
    /// To the repository: the credit of redemption `id` was booked.
    RepositoryToBankOk(u64),
    /// To the repository: the credit of redemption `id` would not fit.
    RepositoryToBankErr(u64),
    /// The bank has stopped.
    Stopped,
}

/// The balance after handling `message` with balance `cash`.
pub open spec fn next_cash(cash: nat, message: Message) -> nat {
    match message {
        Message::Deposit(amount) | Message::RepositoryToBank(_, amount) => if cash + amount
            <= u64::MAX {
            (cash + amount) as nat
        } else {
            cash
        },
        _ => cash,
    }
}

/// The balance after handling `messages` in order, from balance `cash`.
pub open spec fn cash_after(cash: nat, messages: Seq<Message>) -> nat
    decreases messages.len(),
{
    if messages.len() == 0 {
        cash
    } else {
        next_cash(cash_after(cash, messages.drop_last()), messages.last())
    }
}

/// Whatever messages the bank handles, its balance never falls below where
/// it started, and so never below zero.
pub proof fn lemma_balance_never_negative(cash: nat, messages: Seq<Message>)
    ensures
        cash_after(cash, messages) >= cash >= 0,
    decreases messages.len(),
{
    if messages.len() > 0 {
        lemma_balance_never_negative(cash, messages.drop_last());
    }
}

pub struct Bank {
    date: Date,
    balance: u64,
}

impl Bank {
    pub closed spec fn current_date(&self) -> Date {
        self.date
    }

    pub closed spec fn cash(&self) -> nat {
        self.balance as nat
    }

    pub fn new(date: Date, balance: u64) -> (r: Self)
        ensures
            r.current_date() == date,
            r.cash() == balance,
    {
        Bank { date, balance }
    }

    pub fn balance(&self) -> (r: u64)
        ensures
            r == self.cash(),
    {
        self.balance
    }

    pub fn date(&self) -> (r: Date)
        ensures
            r == self.current_date(),
    {
        self.date
    }

    /// Handles one message. The balance only ever grows, by a deposit or a
    /// credit, and the funds check leaves it as it is.
    pub fn process(&mut self, message: Message) -> (r: Reply)
        ensures
            final(self).cash() == next_cash(old(self).cash(), message),
            match message {
                Message::Step(date) => {
                    &&& r == Reply::BankStepped
                    &&& final(self).current_date() == date
                    &&& final(self).cash() == old(self).cash()
                },
                Message::Balance => {
                    &&& r == Reply::Balance(old(self).cash() as u64)
                    &&& *final(self) == *old(self)
                },
                Message::Deposit(amount) => if old(self).cash() + amount <= u64::MAX {
                    &&& r == Reply::Deposited
                    &&& final(self).cash() == old(self).cash() + amount
                    &&& final(self).current_date() == old(self).current_date()
                } else {
                    &&& r == Reply::DepositRefused
                    &&& *final(self) == *old(self)
                },
                Message::BankToRepository(id, amount) => {
                    &&& r == if old(self).cash() >= amount {
                        Reply::BankToRepositoryOk(id)
                    } else {
                        Reply::BankToRepositoryErr(id)
                    }
                    &&& *final(self) == *old(self)
                },
                Message::RepositoryToBank(id, amount) => if old(self).cash() + amount <= u64::MAX {
                    &&& r == Reply::RepositoryToBankOk(id)
                    &&& final(self).cash() == old(self).cash() + amount
                    &&& final(self).current_date() == old(self).current_date()
                } else {
                    &&& r == Reply::RepositoryToBankErr(id)
                    &&& *final(self) == *old(self)
                },
                Message::Stop => r == Reply::Stopped && *final(self) == *old(self),
            },
    {
        match message {
            Message::Step(date) => {
                self.date = date;
                Reply::BankStepped
            },
            Message::Balance => Reply::Balance(self.balance),
            Message::Deposit(amount) => match self.balance.checked_add(amount) {
                Some(b) => {
                    self.balance = b;
                    Reply::Deposited
                },
                None => Reply::DepositRefused,
            },
            Message::BankToRepository(id, amount) => {
                if self.balance >= amount {
                    Reply::BankToRepositoryOk(id)
                } else {
                    Reply::BankToRepositoryErr(id)
                }
            },
            Message::RepositoryToBank(id, amount) => match self.balance.checked_add(amount) {
                Some(b) => {
                    self.balance = b;
                    Reply::RepositoryToBankOk(id)
                },
                None => Reply::RepositoryToBankErr(id),
            },
            Message::Stop => Reply::Stopped,
        }
    }
}

} // verus!
