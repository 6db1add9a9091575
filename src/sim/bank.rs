//! A cash account whose deposits arrive one day late.
use vstd::prelude::*;

verus! {

#[derive(Clone, Copy, Debug, PartialEq, Eq, Structural)]
pub enum BankError {
    DepositError,
    WithdrawError,
}

impl BankError {
    pub fn to_string(&self) -> (r: String)
        ensures
            r@ == (match self {
                BankError::DepositError => "DepositError"@,
                BankError::WithdrawError => "WithdrawError"@,
            }),
    {
        match self {
            BankError::DepositError => String::from_str("DepositError"),
            BankError::WithdrawError => String::from_str("WithdrawError"),
        }
    }
}

pub struct Bank {
    balance: u64,
    uncomplished_deposit: Option<u64>,
}

impl Bank {
    pub closed spec fn cash(&self) -> nat {
        self.balance as nat
    }

    /// The deposit that lands on the next day, if any.
    pub closed spec fn in_transit(&self) -> Option<u64> {
        self.uncomplished_deposit
    }

    /// Whether the deposit in transit, if any, fits in the balance.
    pub open spec fn lands(&self) -> bool {
        match self.in_transit() {
            Some(amount) => self.cash() + amount <= u64::MAX,
            None => true,
        }
    }

    /// The balance once the deposit in transit has landed.
    pub open spec fn landed_cash(&self) -> int {
        self.cash() + match self.in_transit() {
            Some(amount) => amount as int,
            None => 0,
        }
    }

    pub fn new(balance: u64) -> (r: Self)
        ensures
            r.cash() == balance,
            r.in_transit() is None,
    {
        Bank { balance, uncomplished_deposit: None }
    }

    pub fn balance(&self) -> (r: u64)
        ensures
            r == self.cash(),
    {
        self.balance
    }

    /// A day passes: the deposit in transit lands and `deposit_opt` takes its
    /// place. `DepositError`, with nothing changed, where the balance would
    /// not fit.
    pub fn update(&mut self, deposit_opt: Option<u64>) -> (r: Result<(), BankError>)
        ensures
            match old(self).in_transit() {
                Some(amount) if old(self).cash() + amount > u64::MAX => {
                    &&& r == Err::<(), BankError>(BankError::DepositError)
                    &&& final(self).cash() == old(self).cash()
                    &&& final(self).in_transit() == old(self).in_transit()
                },
                _ => {
                    &&& r == Ok::<(), BankError>(())
                    &&& final(self).cash() == old(self).cash() + match old(self).in_transit() {
                        Some(amount) => amount as int,
                        None => 0,
                    }
                    &&& final(self).in_transit() == deposit_opt
                },
            },
    {
        if let Some(amount) = self.uncomplished_deposit {
            match self.balance.checked_add(amount) {
                Some(b) => self.balance = b,
                None => return Err(BankError::DepositError),
            }
        }
        self.uncomplished_deposit = deposit_opt;
        Ok(())
    }

    /// A day passes with no new deposit.
    pub fn pass(&mut self) -> (r: Result<(), BankError>)
        ensures
            match old(self).in_transit() {
                Some(amount) if old(self).cash() + amount > u64::MAX => {
                    &&& r == Err::<(), BankError>(BankError::DepositError)
                    &&& final(self).cash() == old(self).cash()
                    &&& final(self).in_transit() == old(self).in_transit()
                },
                _ => {
                    &&& r == Ok::<(), BankError>(())
                    &&& final(self).cash() == old(self).cash() + match old(self).in_transit() {
                        Some(amount) => amount as int,
                        None => 0,
                    }
                    &&& final(self).in_transit() is None
                },
            },
    {
        self.update(None)
    }

    /// A day passes and `amount`, which must be positive, is sent to arrive
    /// the next day.
    pub fn deposit(&mut self, amount: u64) -> (r: Result<(), BankError>)
        ensures
            amount == 0 ==> r == Err::<(), BankError>(BankError::DepositError) && final(self).cash()
                == old(self).cash() && final(self).in_transit() == old(self).in_transit(),
            amount > 0 ==> match old(self).in_transit() {
                Some(a) if old(self).cash() + a > u64::MAX => {
                    &&& r == Err::<(), BankError>(BankError::DepositError)
                    &&& final(self).cash() == old(self).cash()
                    &&& final(self).in_transit() == old(self).in_transit()
                },
                _ => {
                    &&& r == Ok::<(), BankError>(())
                    &&& final(self).cash() == old(self).cash() + match old(self).in_transit() {
                        Some(a) => a as int,
                        None => 0,
                    }
                    &&& final(self).in_transit() == Some(amount)
                },
            },
    {
        if amount > 0 {
            self.update(Some(amount))
        } else {
            Err(BankError::DepositError)
        }
    }

    /// Puts back at once `amount` that was taken out.
    pub fn refund(&mut self, amount: u64)
        requires
            old(self).cash() + amount <= u64::MAX,
        ensures
            final(self).cash() == old(self).cash() + amount,
            final(self).in_transit() == old(self).in_transit(),
    {
        self.balance = self.balance + amount;
    }

    /// Takes `amount` out at once, where the balance covers it.
    pub fn withdraw(&mut self, amount: u64) -> (r: Result<(), BankError>)
        ensures
            final(self).in_transit() == old(self).in_transit(),
            old(self).cash() >= amount ==> r == Ok::<(), BankError>(()) && final(self).cash()
                == old(self).cash() - amount && final(self).cash() + amount <= u64::MAX,
            old(self).cash() < amount ==> r == Err::<(), BankError>(BankError::WithdrawError)
                && final(self).cash() == old(self).cash(),
    {
        if self.balance >= amount {
            self.balance = self.balance - amount;
            Ok(())
        } else {
            Err(BankError::WithdrawError)
        }
    }
}

} // verus!
