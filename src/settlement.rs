//! The repository actor: a FIFO lot ledger with next-day settlement.
//!
//! Purchases are booked as pending until the bank confirms that the buyer's
//! funds suffice; redemptions are booked as pending until the step that
//! reaches their settlement date, when their proceeds are credited.
use crate::date::Date;
use crate::error::Error;
use crate::fifo::{
    investment_fee, left, lemma_sell_oldest_first, lemma_share_sum_push, portions_fee, portions_value, share_sum,
    portions_of, take_oldest, taken, FeeSchedule, Lot,
};
use crate::units::{div_floor, div_units};
use std::collections::VecDeque;
use vstd::prelude::*;

verus! {

/// A purchase waiting for the bank's answer.
#[derive(Clone, Copy, Debug, PartialEq, Eq, Structural)]
pub struct PendingPurchase {
    pub id: u64,
    pub finish_date: Date,
    pub amount: u64,
    pub share: u64,
}

/// Proceeds of a sale waiting for their settlement date.
#[derive(Clone, Copy, Debug, PartialEq, Eq, Structural)]
pub struct PendingRedemption {
    pub id: u64,
    pub finish_date: Date,
    pub amount: u64,
}

/// What the repository is told.
#[derive(Clone, Copy, Debug, PartialEq, Eq, Structural)]
pub enum Message {
    /// A new trading day: its date, its net asset value, and the date on
    /// which orders placed now settle.
    Step { date: Date, net_asset_value: u64, next_date: Date },
    /// Buy for this amount of money.
    Buy(u64),
    /// Sell this many shares.
    Sell(u64),
    BankToRepositoryOk(u64),
    BankToRepositoryErr(u64),
    RepositoryToBankOk(u64),
    RepositoryToBankErr(u64),
    Stop,
}

/// What the repository sends.
#[derive(Clone, Copy, Debug, PartialEq, Eq, Structural)]
pub enum Outgoing {
    /// To the bank: check that the funds cover purchase `id`.
    BankToRepository { id: u64, amount: u64 },
    /// To the bank: credit the proceeds of redemption `id`.
    RepositoryToBank { id: u64, amount: u64 },
    /// To the world: the step was taken.
    RepositoryStepped,
    /// To the buyer: the purchase was not booked.
    BuyRejected(Error),
    /// To the seller: the sale was booked as this redemption.
    SellAccepted(PendingRedemption),
    /// To the seller: the sale was refused.
    SellRejected(Error),
    /// The bank confirmed purchase `id`, but its share does not fit.
    ConfirmFailed(u64),
    /// The repository has stopped.
    Stopped,
}

/// The credits that settle the given redemptions.
pub open spec fn credits(s: Seq<PendingRedemption>) -> Seq<Outgoing> {
    s.map_values(|p: PendingRedemption| Outgoing::RepositoryToBank { id: p.id, amount: p.amount })
}

/// What the repository holds, as mathematical values.
pub struct Holding {
    pub holding_share: nat,
    pub invested_money: nat,
    pub date: Date,
    pub net_asset_value: nat,
    pub next_date: Date,
    pub next_id: nat,
    pub lots: Seq<Lot>,
    pub purchases: Seq<PendingPurchase>,
    pub redemptions: Seq<PendingRedemption>,
    pub investment_tiers: Seq<(u64, u64)>,
    pub redemption_tiers: Seq<(u64, u64)>,
}

/// Redemptions whose settlement date is on or before `date`.
pub open spec fn matured(s: Seq<PendingRedemption>, date: Date) -> Seq<PendingRedemption> {
    s.filter(|p: PendingRedemption| p.finish_date.days <= date.days)
}

/// Redemptions whose settlement date is after `date`.
pub open spec fn unmatured(s: Seq<PendingRedemption>, date: Date) -> Seq<PendingRedemption> {
    s.filter(|p: PendingRedemption| p.finish_date.days > date.days)
}

impl Holding {
    /// The invariant of every reachable state: the holding is the total of
    /// the live lots, the price is positive, orders placed now settle no
    /// earlier than today, and every outstanding id was handed out earlier
    /// and belongs to one purchase only.
    pub open spec fn wf(self) -> bool {
        &&& self.holding_share == share_sum(self.lots)
        &&& self.net_asset_value > 0
        &&& self.next_date.days >= self.date.days
        &&& forall|i: int| 0 <= i < self.purchases.len() ==> #[trigger] self.purchases[i].id < self.next_id
        &&& forall|i: int| 0 <= i < self.redemptions.len() ==> #[trigger] self.redemptions[i].id < self.next_id
        &&& forall|i: int, j: int|
            0 <= i < self.purchases.len() && 0 <= j < self.purchases.len() && i != j
                ==> #[trigger] self.purchases[i].id != #[trigger] self.purchases[j].id
    }

    /// The quote of a step, with matured redemptions settled.
    pub open spec fn stepped(self, date: Date, net_asset_value: nat, next_date: Date) -> Holding {
        Holding {
            date,
            net_asset_value,
            next_date,
            redemptions: unmatured(self.redemptions, date),
            ..self
        }
    }

    /// The pending purchase that a buy of `amount` books, or `None` where
    /// its share or its id does not fit.
    pub open spec fn purchase(self, amount: nat) -> Option<PendingPurchase> {
        let fee = investment_fee(self.investment_tiers, amount as int);
        let share = div_floor(amount - fee, self.net_asset_value as int);
        if share <= u64::MAX && self.next_id < u64::MAX {
            Some(
                PendingPurchase {
                    id: self.next_id as u64,
                    finish_date: self.next_date,
                    amount: amount as u64,
                    share: share as u64,
                },
            )
        } else {
            None
        }
    }

    pub open spec fn bought(self, p: PendingPurchase) -> Holding {
        Holding { next_id: self.next_id + 1, purchases: self.purchases.push(p), ..self }
    }

    pub open spec fn has_purchase(self, id: u64) -> bool {
        exists|i: int| 0 <= i < self.purchases.len() && self.purchases[i].id == id
    }

    pub open spec fn purchase_index(self, id: u64) -> int {
        choose|i: int| 0 <= i < self.purchases.len() && self.purchases[i].id == id
    }

    /// Whether confirming `id` would push a quantity past `u64::MAX`.
    pub open spec fn confirm_overflows(self, id: u64) -> bool {
        let p = self.purchases[self.purchase_index(id)];
        self.holding_share + p.share > u64::MAX || self.invested_money + p.amount > u64::MAX
    }

    /// The bank confirmed the funds of purchase `id`: its share is held
    /// and queued as a lot dated at its settlement. An unknown id, or one
    /// whose share would not fit, changes nothing.
    pub open spec fn confirmed(self, id: u64) -> Holding {
        if !self.has_purchase(id) || self.confirm_overflows(id) {
            self
        } else {
            let i = self.purchase_index(id);
            let p = self.purchases[i];
            Holding {
                holding_share: (self.holding_share + p.share) as nat,
                invested_money: (self.invested_money + p.amount) as nat,
                lots: self.lots.push(Lot { purchase_date: p.finish_date, share: p.share }),
                purchases: self.purchases.remove(i),
                ..self
            }
        }
    }

    /// The bank refused purchase `id`: it is dropped. An unknown id changes
    /// nothing.
    pub open spec fn refused(self, id: u64) -> Holding {
        if !self.has_purchase(id) {
            self
        } else {
            Holding { purchases: self.purchases.remove(self.purchase_index(id)), ..self }
        }
    }

    /// Proceeds of selling `share` shares at the current quote: the value
    /// of the lots taken, oldest first, less their holding-period fees.
    pub open spec fn proceeds(self, share: nat) -> int {
        let portions = taken(self.lots, share as int);
        portions_value(self.net_asset_value as int, portions) - portions_fee(
            self.redemption_tiers,
            self.date.days as int,
            self.net_asset_value as int,
            portions,
        )
    }

    /// The outcome of selling `share` shares.
    pub open spec fn sale(self, share: nat) -> Result<PendingRedemption, Error> {
        let portions = taken(self.lots, share as int);
        if share > self.holding_share {
            Err(Error::Insufficient)
        } else if portions_value(self.net_asset_value as int, portions) > u64::MAX
            || self.next_id >= u64::MAX {
            Err(Error::Overflow)
        } else {
            Ok(
                PendingRedemption {
                    id: self.next_id as u64,
                    finish_date: self.next_date,
                    amount: self.proceeds(share) as u64,
                },
            )
        }
    }

    pub open spec fn sold(self, share: nat, p: PendingRedemption) -> Holding {
        Holding {
            holding_share: (self.holding_share - share) as nat,
            lots: left(self.lots, share as int),
            next_id: self.next_id + 1,
            redemptions: self.redemptions.push(p),
            ..self
        }
    }
}

/// The repository's state.
pub struct Repository {
    holding_share: u64,
    invested_money: u64,
    date: Date,
    net_asset_value: u64,
    next_date: Date,
    next_id: u64,
    lots: VecDeque<Lot>,
    purchases: Vec<PendingPurchase>,
    redemptions: Vec<PendingRedemption>,
    schedule: FeeSchedule,
}

impl View for Repository {
    type V = Holding;

    closed spec fn view(&self) -> Holding {
        Holding {
            holding_share: self.holding_share as nat,
            invested_money: self.invested_money as nat,
            date: self.date,
            net_asset_value: self.net_asset_value as nat,
            next_date: self.next_date,
            next_id: self.next_id as nat,
            lots: self.lots@,
            purchases: self.purchases@,
            redemptions: self.redemptions@,
            investment_tiers: self.schedule.investment_tiers(),
            redemption_tiers: self.schedule.redemption_tiers(),
        }
    }
}

impl Repository {
    /// An empty repository quoted at `net_asset_value` on `date`, whose
    /// orders settle on `next_date`.
    pub fn new(schedule: FeeSchedule, date: Date, net_asset_value: u64, next_date: Date) -> (r: Self)
        requires
            net_asset_value > 0,
            next_date.days >= date.days,
        ensures
            r@.wf(),
            r@.holding_share == 0,
            r@.invested_money == 0,
            r@.date == date,
            r@.net_asset_value == net_asset_value,
            r@.next_date == next_date,
            r@.next_id == 0,
            r@.lots.len() == 0,
            r@.purchases.len() == 0,
            r@.redemptions.len() == 0,
            r@.investment_tiers == schedule.investment_tiers(),
            r@.redemption_tiers == schedule.redemption_tiers(),
    {
        let r = Repository {
            holding_share: 0,
            invested_money: 0,
            date,
            net_asset_value,
            next_date,
            next_id: 0,
            lots: VecDeque::new(),
            purchases: Vec::new(),
            redemptions: Vec::new(),
            schedule,
        };
        assert(share_sum(r.lots@) == 0);
        r
    }

    pub fn holding_share(&self) -> (r: u64)
        ensures
            r == self@.holding_share,
    {
        self.holding_share
    }

    pub fn invested_money(&self) -> (r: u64)
        ensures
            r == self@.invested_money,
    {
        self.invested_money
    }

    pub fn net_asset_value(&self) -> (r: u64)
        ensures
            r == self@.net_asset_value,
    {
        self.net_asset_value
    }

    pub fn next_date(&self) -> (r: Date)
        ensures
            r == self@.next_date,
    {
        self.next_date
    }

    /// The live lots, oldest first.
    pub fn lots(&self) -> (r: Vec<Lot>)
        ensures
            r@ == self@.lots,
    {
        let mut r: Vec<Lot> = Vec::new();
        let mut i: usize = 0;
        while i < self.lots.len()
            invariant
                i <= self.lots@.len(),
                r@ == self.lots@.take(i as int),
            decreases self.lots@.len() - i,
        {
            r.push(self.lots[i]);
            assert(self.lots@.take(i + 1) =~= self.lots@.take(i as int).push(self.lots@[i as int]));
            i = i + 1;
        }
        assert(self.lots@.take(i as int) =~= self.lots@);
        r
    }

    /// Purchases waiting for the bank, oldest first.
    pub fn pending_purchases(&self) -> (r: &[PendingPurchase])
        ensures
            r@ == self@.purchases,
    {
        self.purchases.as_slice()
    }

    /// Redemptions waiting for their settlement date, oldest first.
    pub fn pending_redemptions(&self) -> (r: &[PendingRedemption])
        ensures
            r@ == self@.redemptions,
    {
        self.redemptions.as_slice()
    }

    /// Takes the quote of a new trading day and settles every redemption
    /// due by `date`: they are returned, oldest first, for their proceeds to
    /// be credited, and the later ones stay pending.
    pub fn step(&mut self, date: Date, net_asset_value: u64, next_date: Date) -> (r: Vec<PendingRedemption>)
        requires
            old(self)@.wf(),
            net_asset_value > 0,
            next_date.days >= date.days,
        ensures
            final(self)@.wf(),
            final(self)@ == old(self)@.stepped(date, net_asset_value as nat, next_date),
            r@ == matured(old(self)@.redemptions, date),
    {
        let ghost s = self.redemptions@;
        let mut due: Vec<PendingRedemption> = Vec::new();
        let mut later: Vec<PendingRedemption> = Vec::new();
        let mut i: usize = 0;
        assert(s.take(0) =~= Seq::<PendingRedemption>::empty());
        while i < self.redemptions.len()
            invariant
                s == self.redemptions@,
                self@.wf(),
                i <= s.len(),
                due@ == matured(s.take(i as int), date),
                later@ == unmatured(s.take(i as int), date),
                forall|k: int| 0 <= k < later@.len() ==> #[trigger] later@[k].id < self.next_id,
            decreases s.len() - i,
        {
            let p = self.redemptions[i];
            assert(self@.redemptions[i as int].id < self@.next_id);
            assert(s.take(i + 1).drop_last() =~= s.take(i as int));
            assert(s.take(i + 1).last() == p);
            proof {
                reveal(Seq::filter);
            }
            if p.finish_date.days <= date.days {
                due.push(p);
            } else {
                let ghost pre = later@;
                later.push(p);
                assert forall|k: int| 0 <= k < later@.len() implies #[trigger] later@[k].id
                    < self.next_id by {
                    if k < pre.len() {
                        assert(later@[k] == pre[k]);
                    }
                }
            }
            i = i + 1;
        }
        assert(s.take(i as int) =~= s);
        self.redemptions = later;
        self.date = date;
        self.net_asset_value = net_asset_value;
        self.next_date = next_date;
        proof {
            let v = self@;
            assert(v.redemptions == later@);
            assert(forall|k: int| 0 <= k < v.redemptions.len() ==> #[trigger] v.redemptions[k].id < v.next_id);
            assert(v.lots == old(self)@.lots);
            assert(v.purchases == old(self)@.purchases);
        }
        due
    }

    /// Books a purchase of `amount`, charged the investment fee and settling
    /// on the next trading date, and returns it for the bank to check the
    /// buyer's funds. `Overflow` where its share or its id does not fit.
    pub fn buy(&mut self, amount: u64) -> (r: Result<PendingPurchase, Error>)
        requires
            old(self)@.wf(),
        ensures
            final(self)@.wf(),
            match old(self)@.purchase(amount as nat) {
                Some(p) => r == Ok::<PendingPurchase, Error>(p) && final(self)@ == old(self)@.bought(p),
                None => r == Err::<PendingPurchase, Error>(Error::Overflow) && final(self)@ == old(self)@,
            },
    {
        let fee = self.schedule.investment_fee(amount);
        let share = match div_units(amount - fee, self.net_asset_value) {
            Some(s) => s,
            None => return Err(Error::Overflow),
        };
        if self.next_id == u64::MAX {
            return Err(Error::Overflow);
        }
        let p = PendingPurchase {
            id: self.next_id,
            finish_date: self.next_date,
            amount,
            share,
        };
        let ghost before = self@;
        self.purchases.push(p);
        self.next_id = self.next_id + 1;
        proof {
            let ps = self.purchases@;
            assert(ps.len() == before.purchases.len() + 1);
            assert forall|i: int| 0 <= i < ps.len() implies #[trigger] ps[i].id < self.next_id by {
                if i < ps.len() - 1 {
                    assert(ps[i] == before.purchases[i]);
                }
            }
            assert forall|i: int, j: int|
                0 <= i < ps.len() && 0 <= j < ps.len() && i != j implies #[trigger] ps[i].id
                != #[trigger] ps[j].id by {
                if i < ps.len() - 1 {
                    assert(ps[i] == before.purchases[i]);
                }
                if j < ps.len() - 1 {
                    assert(ps[j] == before.purchases[j]);
                }
            }
            assert(self@ == before.bought(p));
        }
        Ok(p)
    }

    /// Index of the pending purchase `id`, if there is one.
    fn find_purchase(&self, id: u64) -> (r: Option<usize>)
        requires
            self@.wf(),
        ensures
            r is None <==> !self@.has_purchase(id),
            r matches Some(i) ==> i == self@.purchase_index(id) && i < self@.purchases.len(),
    {
        let mut i: usize = 0;
        while i < self.purchases.len()
            invariant
                i <= self.purchases@.len(),
                self@.wf(),
                forall|k: int| 0 <= k < i ==> #[trigger] self.purchases@[k].id != id,
            decreases self.purchases@.len() - i,
        {
            if self.purchases[i].id == id {
                proof {
                    let v = self@;
                    assert(v.purchases[i as int].id == id);
                    assert(v.has_purchase(id));
                    let j = v.purchase_index(id);
                    assert(v.purchases[j].id == id);
                    assert(i == j);
                }
                return Some(i);
            }
            i = i + 1;
        }
        None
    }

    /// The bank found the funds of purchase `id` sufficient: its share is
    /// held and queued as a lot dated at its settlement, and its amount is
    /// counted as invested. Returns whether it was pending. A duplicate or
    /// unknown id changes nothing; a purchase whose share would not fit
    /// stays pending and gives `Overflow`.
    pub fn confirm(&mut self, id: u64) -> (r: Result<bool, Error>)
        requires
            old(self)@.wf(),
        ensures
            final(self)@.wf(),
            final(self)@ == old(self)@.confirmed(id),
            r == (if !old(self)@.has_purchase(id) {
                Ok::<bool, Error>(false)
            } else if old(self)@.confirm_overflows(id) {
                Err::<bool, Error>(Error::Overflow)
            } else {
                Ok::<bool, Error>(true)
            }),
    {
        let i = match self.find_purchase(id) {
            Some(i) => i,
            None => return Ok(false),
        };
        let p = self.purchases[i];
        let share = match self.holding_share.checked_add(p.share) {
            Some(s) => s,
            None => return Err(Error::Overflow),
        };
        let invested = match self.invested_money.checked_add(p.amount) {
            Some(m) => m,
            None => return Err(Error::Overflow),
        };
        let ghost before = self@;
        let lot = Lot { purchase_date: p.finish_date, share: p.share };
        self.holding_share = share;
        self.invested_money = invested;
        self.lots.push_back(lot);
        self.purchases.remove(i);
        proof {
            lemma_share_sum_push(before.lots, lot);
            lemma_remove_keeps_ids(before.purchases, i as int, before.next_id);
            assert(self@ == before.confirmed(id));
        }
        Ok(true)
    }

    /// The bank found the funds of purchase `id` short: it is dropped.
    /// Returns whether it was pending; a duplicate or unknown id changes
    /// nothing.
    pub fn refuse(&mut self, id: u64) -> (r: bool)
        requires
            old(self)@.wf(),
        ensures
            final(self)@.wf(),
            final(self)@ == old(self)@.refused(id),
            r == old(self)@.has_purchase(id),
    {
        let i = match self.find_purchase(id) {
            Some(i) => i,
            None => return false,
        };
        let ghost before = self@;
        self.purchases.remove(i);
        proof {
            lemma_remove_keeps_ids(before.purchases, i as int, before.next_id);
            assert(self@ == before.refused(id));
        }
        true
    }

    /// Sells `share` shares, taking the oldest lots first, and books the
    /// proceeds to settle on the next trading date. `Insufficient` where
    /// more is asked than is held, `Overflow` where the value or the id does
    /// not fit; nothing changes then.
    pub fn sell(&mut self, share: u64) -> (r: Result<PendingRedemption, Error>)
        requires
            old(self)@.wf(),
        ensures
            final(self)@.wf(),
            match old(self)@.sale(share as nat) {
                Ok(p) => r == Ok::<PendingRedemption, Error>(p) && final(self)@ == old(self)@.sold(
                    share as nat,
                    p,
                ),
                Err(e) => r == Err::<PendingRedemption, Error>(e) && final(self)@ == old(self)@,
            },
    {
        if share > self.holding_share {
            return Err(Error::Insufficient);
        }
        let portions = portions_of(&self.lots, share);
        let (value, fee) = match self.schedule.redemption_totals(self.date, self.net_asset_value, &portions) {
            Some(t) => t,
            None => return Err(Error::Overflow),
        };
        if self.next_id == u64::MAX {
            return Err(Error::Overflow);
        }
        let ghost before = self@;
        proof {
            lemma_sell_oldest_first(before.lots, share as int);
        }
        let _ = take_oldest(&mut self.lots, share);
        let p = PendingRedemption { id: self.next_id, finish_date: self.next_date, amount: value - fee };
        self.holding_share = self.holding_share - share;
        self.redemptions.push(p);
        self.next_id = self.next_id + 1;
        proof {
            let rs = self.redemptions@;
            assert forall|k: int| 0 <= k < rs.len() implies #[trigger] rs[k].id < self.next_id by {
                if k < rs.len() - 1 {
                    assert(rs[k] == before.redemptions[k]);
                }
            }
            assert(self@ == before.sold(share as nat, p));
        }
        Ok(p)
    }

}

/// Removing a purchase keeps every id below `next_id` and every id unique.
proof fn lemma_remove_keeps_ids(ps: Seq<PendingPurchase>, i: int, next_id: nat)
    requires
        0 <= i < ps.len(),
        forall|k: int| 0 <= k < ps.len() ==> #[trigger] ps[k].id < next_id,
        forall|a: int, b: int|
            0 <= a < ps.len() && 0 <= b < ps.len() && a != b ==> #[trigger] ps[a].id
                != #[trigger] ps[b].id,
    ensures
        forall|k: int| 0 <= k < ps.remove(i).len() ==> #[trigger] ps.remove(i)[k].id < next_id,
        forall|a: int, b: int|
            0 <= a < ps.remove(i).len() && 0 <= b < ps.remove(i).len() && a != b
                ==> #[trigger] ps.remove(i)[a].id != #[trigger] ps.remove(i)[b].id,
{
    let rs = ps.remove(i);
    assert forall|k: int| 0 <= k < rs.len() implies #[trigger] rs[k].id < next_id by {
        if k < i {
            assert(rs[k] == ps[k]);
        } else {
            assert(rs[k] == ps[k + 1]);
        }
    }
    assert forall|a: int, b: int|
        0 <= a < rs.len() && 0 <= b < rs.len() && a != b implies #[trigger] rs[a].id
        != #[trigger] rs[b].id by {
        let a2 = if a < i { a } else { a + 1 };
        let b2 = if b < i { b } else { b + 1 };
        assert(rs[a] == ps[a2]);
        assert(rs[b] == ps[b2]);
    }
}



impl Repository {
    /// Handles one message, and returns what is sent in answer, in order.
    pub fn process(&mut self, message: Message) -> (r: Vec<Outgoing>)
        requires
            old(self)@.wf(),
            message matches Message::Step { date, net_asset_value, next_date } ==> net_asset_value > 0
                && next_date.days >= date.days,
        ensures
            final(self)@.wf(),
            match message {
                Message::Step { date, net_asset_value, next_date } => {
                    &&& final(self)@ == old(self)@.stepped(date, net_asset_value as nat, next_date)
                    &&& r@ == credits(matured(old(self)@.redemptions, date)).push(
                        Outgoing::RepositoryStepped,
                    )
                },
                Message::Buy(amount) => match old(self)@.purchase(amount as nat) {
                    Some(p) => final(self)@ == old(self)@.bought(p) && r@ == seq![
                        Outgoing::BankToRepository { id: p.id, amount: p.amount },
                    ],
                    None => final(self)@ == old(self)@ && r@ == seq![
                        Outgoing::BuyRejected(Error::Overflow),
                    ],
                },
                Message::Sell(share) => match old(self)@.sale(share as nat) {
                    Ok(p) => final(self)@ == old(self)@.sold(share as nat, p) && r@ == seq![
                        Outgoing::SellAccepted(p),
                    ],
                    Err(e) => final(self)@ == old(self)@ && r@ == seq![Outgoing::SellRejected(e)],
                },
                Message::BankToRepositoryOk(id) => {
                    &&& final(self)@ == old(self)@.confirmed(id)
                    &&& r@ == if old(self)@.has_purchase(id) && old(self)@.confirm_overflows(id) {
                        seq![Outgoing::ConfirmFailed(id)]
                    } else {
                        Seq::<Outgoing>::empty()
                    }
                },
                Message::BankToRepositoryErr(id) => final(self)@ == old(self)@.refused(id) && r@
                    == Seq::<Outgoing>::empty(),
                Message::RepositoryToBankOk(_) | Message::RepositoryToBankErr(_) => final(self)@
                    == old(self)@ && r@ == Seq::<Outgoing>::empty(),
                Message::Stop => final(self)@ == old(self)@ && r@ == seq![Outgoing::Stopped],
            },
    {
        let mut r: Vec<Outgoing> = Vec::new();
        match message {
            Message::Step { date, net_asset_value, next_date } => {
                let due = self.step(date, net_asset_value, next_date);
                let mut i: usize = 0;
                while i < due.len()
                    invariant
                        i <= due@.len(),
                        r@ == credits(due@.take(i as int)),
                    decreases due@.len() - i,
                {
                    let p = due[i];
                    r.push(Outgoing::RepositoryToBank { id: p.id, amount: p.amount });
                    assert(due@.take(i + 1) =~= due@.take(i as int).push(p));
                    assert(credits(due@.take(i + 1)) =~= credits(due@.take(i as int)).push(
                        Outgoing::RepositoryToBank { id: p.id, amount: p.amount },
                    ));
                    i = i + 1;
                }
                assert(due@.take(i as int) =~= due@);
                r.push(Outgoing::RepositoryStepped);
            },
            Message::Buy(amount) => match self.buy(amount) {
                Ok(p) => r.push(Outgoing::BankToRepository { id: p.id, amount: p.amount }),
                Err(e) => r.push(Outgoing::BuyRejected(e)),
            },
            Message::Sell(share) => match self.sell(share) {
                Ok(p) => r.push(Outgoing::SellAccepted(p)),
                Err(e) => r.push(Outgoing::SellRejected(e)),
            },
            Message::BankToRepositoryOk(id) => {
                if self.confirm(id).is_err() {
                    r.push(Outgoing::ConfirmFailed(id));
                }
            },
            Message::BankToRepositoryErr(id) => {
                self.refuse(id);
            },
            Message::RepositoryToBankOk(_) => {},
            Message::RepositoryToBankErr(_) => {},
            Message::Stop => r.push(Outgoing::Stopped),
        }
        r
    }
}

/// In every state that the repository's operations reach, the holding is
/// the total share of the live lots.
pub proof fn lemma_holding_is_lot_total(h: Holding)
    requires
        h.wf(),
    ensures
        h.holding_share == share_sum(h.lots),
{
}

/// A redemption due on day `D` settles at a step exactly when the step's
/// date is on or after `D`: it stays pending through every earlier step and
/// settles on the first step that reaches `D`.
pub proof fn lemma_settles_when_due(
    h: Holding,
    date: Date,
    net_asset_value: nat,
    next_date: Date,
    p: PendingRedemption,
)
    requires
        h.redemptions.contains(p),
    ensures
        matured(h.redemptions, date).contains(p) <==> p.finish_date.days <= date.days,
        h.stepped(date, net_asset_value, next_date).redemptions.contains(p) <==> p.finish_date.days
            > date.days,
{
    broadcast use vstd::seq_lib::group_filter_ensures;

    let due = |q: PendingRedemption| q.finish_date.days <= date.days;
    let later = |q: PendingRedemption| q.finish_date.days > date.days;
    let i = choose|i: int| 0 <= i < h.redemptions.len() && h.redemptions[i] == p;
    if p.finish_date.days <= date.days {
        h.redemptions.lemma_filter_contains(due, i);
        if h.stepped(date, net_asset_value, next_date).redemptions.contains(p) {
            let k = choose|k: int|
                0 <= k < h.redemptions.filter(later).len() && h.redemptions.filter(later)[k] == p;
            h.redemptions.lemma_filter_pred(later, k);
        }
    } else {
        h.redemptions.lemma_filter_contains(later, i);
        if matured(h.redemptions, date).contains(p) {
            let k = choose|k: int|
                0 <= k < h.redemptions.filter(due).len() && h.redemptions.filter(due)[k] == p;
            h.redemptions.lemma_filter_pred(due, k);
        }
    }
}

/// Once the bank's answer for purchase `id` has been applied, the id is no
/// longer pending, and a duplicate answer, of either kind, changes nothing.
pub proof fn lemma_duplicate_answer_ignored(h: Holding, id: u64)
    requires
        h.wf(),
        h.has_purchase(id),
    ensures
        !h.confirm_overflows(id) ==> {
            let c = h.confirmed(id);
            &&& !c.has_purchase(id)
            &&& c.confirmed(id) == c
            &&& c.refused(id) == c
        },
        ({
            let d = h.refused(id);
            &&& !d.has_purchase(id)
            &&& d.confirmed(id) == d
            &&& d.refused(id) == d
        }),
{
    let i = h.purchase_index(id);
    let rest = h.purchases.remove(i);
    assert forall|k: int| 0 <= k < rest.len() implies #[trigger] rest[k].id != id by {
        let k2 = if k < i { k } else { k + 1 };
        assert(rest[k] == h.purchases[k2]);
        assert(h.purchases[k2].id != h.purchases[i].id);
    }
    if !h.confirm_overflows(id) {
        assert(h.confirmed(id).purchases == rest);
    }
    assert(h.refused(id).purchases == rest);
}

} // verus!
