//! First-in first-out lots and holding-period fee tiers.
use crate::date::Date;
use crate::error::Error;
use crate::repository::{last_info, lemma_fee_lowers_share, Order, Repository, Rule};
use crate::units::{div_floor, div_units, mul_floor, mul_units, UNIT};
use std::collections::VecDeque;
use vstd::prelude::*;

verus! {

/// A purchased block of shares not yet sold, with the date it was bought.
#[derive(Clone, Copy, Debug, PartialEq, Eq, Structural)]
pub struct Lot {
    pub purchase_date: Date,
    pub share: u64,
}

/// Total share of a sequence of lots.
pub open spec fn share_sum(lots: Seq<Lot>) -> int
    decreases lots.len(),
{
    if lots.len() == 0 {
        0
    } else {
        lots[0].share + share_sum(lots.drop_first())
    }
}

/// The portions that selling `s` shares takes from `lots`, oldest first.
pub open spec fn taken(lots: Seq<Lot>, s: int) -> Seq<Lot>
    decreases lots.len(),
{
    if s <= 0 || lots.len() == 0 {
        seq![]
    } else if s < lots[0].share {
        seq![Lot { purchase_date: lots[0].purchase_date, share: s as u64 }]
    } else {
        seq![lots[0]] + taken(lots.drop_first(), s - lots[0].share)
    }
}

/// The lots that remain after selling `s` shares from `lots`.
pub open spec fn left(lots: Seq<Lot>, s: int) -> Seq<Lot>
    decreases lots.len(),
{
    if s <= 0 || lots.len() == 0 {
        lots
    } else if s < lots[0].share {
        seq![Lot { purchase_date: lots[0].purchase_date, share: (lots[0].share - s) as u64 }]
            + lots.drop_first()
    } else {
        left(lots.drop_first(), s - lots[0].share)
    }
}

/// `rest` is what stays of `lots` once the portions `portions` were taken
/// from its front: every portion but the last is a whole lot, the last keeps
/// its lot's purchase date, and a lot that was only partly taken stays at
/// the front with its purchase date and the share that was not taken.
pub open spec fn oldest_first(lots: Seq<Lot>, portions: Seq<Lot>, rest: Seq<Lot>) -> bool {
    let k = portions.len() as int;
    &&& k <= lots.len()
    &&& forall|i: int| 0 <= i < k - 1 ==> #[trigger] portions[i] == lots[i]
    &&& k > 0 ==> portions[k - 1].purchase_date == lots[k - 1].purchase_date
        && portions[k - 1].share <= lots[k - 1].share
    &&& if k > 0 && portions[k - 1].share < lots[k - 1].share {
        rest == seq![
            Lot {
                purchase_date: lots[k - 1].purchase_date,
                share: (lots[k - 1].share - portions[k - 1].share) as u64,
            },
        ] + lots.skip(k)
    } else {
        rest == lots.skip(k)
    }
}

proof fn lemma_share_sum_one(l: Lot)
    ensures
        share_sum(seq![l]) == l.share,
{
    assert(seq![l].drop_first() =~= Seq::<Lot>::empty());
    assert(share_sum(Seq::<Lot>::empty()) == 0);
}

proof fn lemma_share_sum_append(a: Seq<Lot>, b: Seq<Lot>)
    ensures
        share_sum(a + b) == share_sum(a) + share_sum(b),
    decreases a.len(),
{
    if a.len() == 0 {
        assert(a + b =~= b);
    } else {
        assert((a + b).drop_first() =~= a.drop_first() + b);
        lemma_share_sum_append(a.drop_first(), b);
    }
}

pub proof fn lemma_share_sum_push(lots: Seq<Lot>, lot: Lot)
    ensures
        share_sum(lots.push(lot)) == share_sum(lots) + lot.share,
    decreases lots.len(),
{
    if lots.len() == 0 {
        assert(lots.push(lot).drop_first() =~= Seq::<Lot>::empty());
        assert(share_sum(Seq::<Lot>::empty()) == 0);
        assert(lots.push(lot)[0] == lot);
    } else {
        assert(lots.push(lot)[0] == lots[0]);
        assert(lots.push(lot).drop_first() =~= lots.drop_first().push(lot));
        lemma_share_sum_push(lots.drop_first(), lot);
    }
}

/// Selling takes no more shares than asked.
proof fn lemma_taken_at_most(lots: Seq<Lot>, s: int)
    ensures
        0 <= share_sum(taken(lots, s)),
        s >= 0 ==> share_sum(taken(lots, s)) <= s,
    decreases lots.len(),
{
    if s <= 0 || lots.len() == 0 {
        assert(share_sum(Seq::<Lot>::empty()) == 0);
    } else if s < lots[0].share {
        lemma_share_sum_one(Lot { purchase_date: lots[0].purchase_date, share: s as u64 });
    } else {
        lemma_taken_at_most(lots.drop_first(), s - lots[0].share);
        lemma_share_sum_append(seq![lots[0]], taken(lots.drop_first(), s - lots[0].share));
        lemma_share_sum_one(lots[0]);
    }
}

/// Selling `s` shares, at most the lots' total, takes exactly `s` shares,
/// leaves the rest, and takes the oldest lots first.
pub proof fn lemma_sell_oldest_first(lots: Seq<Lot>, s: int)
    requires
        0 <= s <= share_sum(lots),
    ensures
        share_sum(taken(lots, s)) == s,
        share_sum(left(lots, s)) == share_sum(lots) - s,
        oldest_first(lots, taken(lots, s), left(lots, s)),
    decreases lots.len(),
{
    let t = taken(lots, s);
    let r = left(lots, s);
    if s <= 0 || lots.len() == 0 {
        assert(lots.skip(0) =~= lots);
    } else if s < lots[0].share {
        let p = Lot { purchase_date: lots[0].purchase_date, share: s as u64 };
        lemma_share_sum_one(p);
        let f = Lot { purchase_date: lots[0].purchase_date, share: (lots[0].share - s) as u64 };
        assert((seq![f] + lots.drop_first()).drop_first() =~= lots.drop_first());
        assert(lots.skip(1) =~= lots.drop_first());
    } else {
        let tail = lots.drop_first();
        let s2 = s - lots[0].share;
        lemma_sell_oldest_first(tail, s2);
        let t2 = taken(tail, s2);
        lemma_share_sum_append(seq![lots[0]], t2);
        lemma_share_sum_one(lots[0]);
        assert(t == seq![lots[0]] + t2);
        let k = t.len() as int;
        assert forall|i: int| 0 <= i < k - 1 implies #[trigger] t[i] == lots[i] by {
            if i > 0 {
                assert(t[i] == t2[i - 1]);
            }
        }
        if t2.len() == 0 {
            assert(r == tail);
            assert(lots.skip(1) =~= tail);
        } else {
            assert(t[k - 1] == t2[k - 2]);
            assert(lots[k - 1] == tail[k - 2]);
            assert(tail.skip(t2.len() as int) =~= lots.skip(k as int));
        }
    }
}

/// Sells `share` shares from the front of `lots`, oldest first, and returns
/// the portions taken. A lot that is only partly taken stays at the front
/// with the share that was not taken.
pub fn take_oldest(lots: &mut VecDeque<Lot>, share: u64) -> (portions: Vec<Lot>)
    ensures
        portions@ == taken(old(lots)@, share as int),
        final(lots)@ == left(old(lots)@, share as int),
{
    let mut portions: Vec<Lot> = Vec::new();
    let mut rest: u64 = share;
    while rest > 0 && lots.len() > 0
        invariant
            taken(old(lots)@, share as int) == portions@ + taken(lots@, rest as int),
            left(old(lots)@, share as int) == left(lots@, rest as int),
        ensures
            portions@ == taken(old(lots)@, share as int),
            lots@ == left(old(lots)@, share as int),
        decreases lots.len(),
    {
        let ghost before = lots@;
        let lot = lots.pop_front().unwrap();
        assert(before.drop_first() =~= lots@);
        if rest < lot.share {
            let part = Lot { purchase_date: lot.purchase_date, share: rest };
            let keep = Lot { purchase_date: lot.purchase_date, share: lot.share - rest };
            lots.push_front(keep);
            portions.push(part);
            assert(taken(before, rest as int) == seq![part]);
            assert(lots@ =~= seq![keep] + before.drop_first());
            assert(left(lots@, 0) == lots@);
            rest = 0;
            assert(portions@ + taken(lots@, 0) =~= portions@);
            break ;
        } else {
            let ghost pre = portions@;
            rest = rest - lot.share;
            portions.push(lot);
            assert(portions@ + taken(lots@, rest as int) =~= pre + (seq![lot] + taken(
                lots@,
                rest as int,
            )));
        }
    }
    proof {
        if rest == 0 || lots@.len() == 0 {
            assert(portions@ + taken(lots@, rest as int) =~= portions@);
        }
    }
    portions
}

/// The portions that selling `share` shares would take from `lots`,
/// without taking them.
pub fn portions_of(lots: &VecDeque<Lot>, share: u64) -> (portions: Vec<Lot>)
    ensures
        portions@ == taken(lots@, share as int),
{
    let mut portions: Vec<Lot> = Vec::new();
    let mut rest: u64 = share;
    let mut i: usize = 0;
    assert(lots@.skip(0) =~= lots@);
    while rest > 0 && i < lots.len()
        invariant
            i <= lots@.len(),
            taken(lots@, share as int) == portions@ + taken(lots@.skip(i as int), rest as int),
        decreases lots@.len() - i, rest,
    {
        let lot = lots[i];
        let ghost tail = lots@.skip(i as int);
        assert(tail[0] == lot);
        assert(tail.drop_first() =~= lots@.skip(i + 1));
        if rest < lot.share {
            let part = Lot { purchase_date: lot.purchase_date, share: rest };
            portions.push(part);
            assert(taken(tail, rest as int) == seq![part]);
            rest = 0;
            assert(portions@ + taken(lots@.skip(i as int), 0) =~= portions@);
        } else {
            let ghost pre = portions@;
            rest = rest - lot.share;
            portions.push(lot);
            i = i + 1;
            assert(portions@ + taken(lots@.skip(i as int), rest as int) =~= pre + (seq![lot]
                + taken(lots@.skip(i as int), rest as int)));
        }
    }
    assert(portions@ + taken(lots@.skip(i as int), rest as int) =~= portions@);
    portions
}

/// Rate of the first tier whose bound exceeds `x`, or zero where none does:
/// the rate of an investment of `x`.
pub open spec fn tier_rate(tiers: Seq<(u64, u64)>, x: int) -> int
    decreases tiers.len(),
{
    if tiers.len() == 0 {
        0
    } else if x < tiers[0].0 {
        tiers[0].1 as int
    } else {
        tier_rate(tiers.drop_first(), x)
    }
}

/// Every rate of the tiers is at most one whole unit.
pub open spec fn rates_bounded(tiers: Seq<(u64, u64)>) -> bool {
    forall|i: int| 0 <= i < tiers.len() ==> #[trigger] tiers[i].1 <= UNIT
}

proof fn lemma_tier_rate_bounded(tiers: Seq<(u64, u64)>, x: int)
    requires
        rates_bounded(tiers),
    ensures
        0 <= tier_rate(tiers, x) <= UNIT,
    decreases tiers.len(),
{
    if tiers.len() > 0 {
        assert(tiers[0].1 <= UNIT);
        assert forall|i: int| 0 <= i < tiers.len() - 1 implies #[trigger] tiers.drop_first()[i].1
            <= UNIT by {
            assert(tiers.drop_first()[i] == tiers[i + 1]);
        }
        lemma_tier_rate_bounded(tiers.drop_first(), x);
    }
}

/// The rate of the first tier whose bound exceeds `x`, or zero.
pub fn find_tier_rate(tiers: &Vec<(u64, u64)>, x: i128) -> (r: u64)
    ensures
        r == tier_rate(tiers@, x as int),
{
    let mut i: usize = 0;
    assert(tiers@.skip(0) =~= tiers@);
    while i < tiers.len()
        invariant
            i <= tiers.len(),
            tier_rate(tiers@, x as int) == tier_rate(tiers@.skip(i as int), x as int),
        decreases tiers.len() - i,
    {
        let (bound, rate) = tiers[i];
        assert(tiers@.skip(i as int)[0] == tiers@[i as int]);
        if x < (bound as i128) {
            return rate;
        }
        assert(tiers@.skip(i as int).drop_first() =~= tiers@.skip(i + 1));
        i = i + 1;
    }
    assert(tiers@.skip(i as int).len() == 0);
    0
}

/// Rate of a holding of `days` days: that of the last tier whose bound of
/// days it has reached, or zero where it has reached none. A tier
/// `(days, rate)` thus reads "held at least `days` days: `rate`". With tiers
/// `(7, 1.5%)` and `(30, 0.5%)`, a lot held 9 days is charged 1.5% (10
/// shares at 1.0 pay 0.15), one held 35 days 0.5%, one held 4 days nothing.
pub open spec fn holding_rate(tiers: Seq<(u64, u64)>, days: int) -> int
    decreases tiers.len(),
{
    if tiers.len() == 0 {
        0
    } else if days >= tiers.last().0 {
        tiers.last().1 as int
    } else {
        holding_rate(tiers.drop_last(), days)
    }
}

proof fn lemma_holding_rate_bounded(tiers: Seq<(u64, u64)>, days: int)
    requires
        rates_bounded(tiers),
    ensures
        0 <= holding_rate(tiers, days) <= UNIT,
    decreases tiers.len(),
{
    if tiers.len() > 0 {
        assert(tiers[tiers.len() - 1].1 <= UNIT);
        assert forall|i: int| 0 <= i < tiers.len() - 1 implies #[trigger] tiers.drop_last()[i].1
            <= UNIT by {
            assert(tiers.drop_last()[i] == tiers[i]);
        }
        lemma_holding_rate_bounded(tiers.drop_last(), days);
    }
}

/// The rate of a holding of `days` days.
pub fn find_holding_rate(tiers: &Vec<(u64, u64)>, days: i64) -> (r: u64)
    ensures
        r == holding_rate(tiers@, days as int),
{
    let mut rate: u64 = 0;
    let mut i: usize = 0;
    assert(tiers@.take(0) =~= Seq::<(u64, u64)>::empty());
    while i < tiers.len()
        invariant
            i <= tiers.len(),
            rate == holding_rate(tiers@.take(i as int), days as int),
        decreases tiers.len() - i,
    {
        let (bound, tier) = tiers[i];
        assert(tiers@.take(i + 1).drop_last() =~= tiers@.take(i as int));
        assert(tiers@.take(i + 1).last() == tiers@[i as int]);
        if (days as i128) >= (bound as i128) {
            rate = tier;
        }
        i = i + 1;
    }
    assert(tiers@.take(i as int) =~= tiers@);
    rate
}

/// Fee on selling `share` shares at `net_asset_value` that were held
/// `days` days: the rate of the holding-period tier on their value.
pub open spec fn redemption_fee(tiers: Seq<(u64, u64)>, days: int, net_asset_value: int, share: int) -> int {
    mul_floor(mul_floor(share, net_asset_value), holding_rate(tiers, days))
}

/// Fee on selling `share` shares bought on `invest_date` at `date`, or `None`
/// where their value does not fit.
pub fn calculate_redemption_fee(
    redemption_rates: &Vec<(u64, u64)>,
    invest_date: Date,
    date: Date,
    net_asset_value: u64,
    share: u64,
) -> (r: Option<u64>)
    requires
        rates_bounded(redemption_rates@),
    ensures
        r.is_some() == (mul_floor(share as int, net_asset_value as int) <= u64::MAX),
        r.is_some() ==> r.unwrap() == redemption_fee(
            redemption_rates@,
            date.days - invest_date.days,
            net_asset_value as int,
            share as int,
        ),
{
    let value = mul_units(share, net_asset_value)?;
    let rate = find_holding_rate(redemption_rates, date.days_since(&invest_date));
    proof {
        lemma_holding_rate_bounded(redemption_rates@, date.days - invest_date.days);
        crate::units::lemma_rate_bounded(value as int, rate as int);
    }
    mul_units(value, rate)
}

} // verus!

verus! {

/// Value at `net_asset_value` of the portions, each rounded on its own.
pub open spec fn portions_value(net_asset_value: int, portions: Seq<Lot>) -> int
    decreases portions.len(),
{
    if portions.len() == 0 {
        0
    } else {
        portions_value(net_asset_value, portions.drop_last()) + mul_floor(
            portions.last().share as int,
            net_asset_value,
        )
    }
}

/// Holding-period fees of the portions sold on day `date`.
pub open spec fn portions_fee(
    tiers: Seq<(u64, u64)>,
    date: int,
    net_asset_value: int,
    portions: Seq<Lot>,
) -> int
    decreases portions.len(),
{
    if portions.len() == 0 {
        0
    } else {
        portions_fee(tiers, date, net_asset_value, portions.drop_last()) + redemption_fee(
            tiers,
            date - portions.last().purchase_date.days,
            net_asset_value,
            portions.last().share as int,
        )
    }
}

proof fn lemma_portions_value_prefix(nav: int, portions: Seq<Lot>, j: int)
    requires
        nav >= 0,
        0 <= j <= portions.len(),
    ensures
        0 <= portions_value(nav, portions.take(j)) <= portions_value(nav, portions),
    decreases portions.len(),
{
    let n = portions.len() as int;
    if n > 0 {
        let last = portions.last().share as int;
        assert(last * nav >= 0) by (nonlinear_arith)
            requires last >= 0, nav >= 0;
        if j == n {
            assert(portions.take(j) =~= portions);
            lemma_portions_value_prefix(nav, portions.drop_last(), j - 1);
            assert(portions.drop_last().take(j - 1) =~= portions.drop_last());
        } else {
            assert(portions.take(j) =~= portions.drop_last().take(j));
            lemma_portions_value_prefix(nav, portions.drop_last(), j);
        }
    } else {
        assert(portions.take(j) =~= portions);
    }
}

/// Total value and total fee of selling the portions on `date`, or `None`
/// where the total value does not fit in a `u64`.
pub fn redemption_totals(
    redemption_rates: &Vec<(u64, u64)>,
    date: Date,
    net_asset_value: u64,
    portions: &Vec<Lot>,
) -> (r: Option<(u64, u64)>)
    requires
        rates_bounded(redemption_rates@),
    ensures
        r.is_some() == (portions_value(net_asset_value as int, portions@) <= u64::MAX),
        r matches Some((value, fee)) ==> {
            &&& value == portions_value(net_asset_value as int, portions@)
            &&& fee == portions_fee(redemption_rates@, date.days as int, net_asset_value as int, portions@)
            &&& fee <= value
        },
{
    let mut value: u64 = 0;
    let mut fee: u64 = 0;
    let mut i: usize = 0;
    assert(portions@.take(0) =~= Seq::<Lot>::empty());
    while i < portions.len()
        invariant
            i <= portions.len(),
            rates_bounded(redemption_rates@),
            value == portions_value(net_asset_value as int, portions@.take(i as int)),
            fee == portions_fee(redemption_rates@, date.days as int, net_asset_value as int, portions@.take(i as int)),
            fee <= value,
        decreases portions.len() - i,
    {
        let lot = portions[i];
        assert(portions@.take(i + 1).drop_last() =~= portions@.take(i as int));
        assert(portions@.take(i + 1).last() == lot);
        proof {
            lemma_portions_value_prefix(net_asset_value as int, portions@, i + 1);
        }
        let part = match mul_units(lot.share, net_asset_value) {
            Some(v) => v,
            None => {
                proof {
                    lemma_portions_value_prefix(net_asset_value as int, portions@, i as int);
                }
                return None;
            },
        };
        let sum = match value.checked_add(part) {
            Some(s) => s,
            None => return None,
        };
        let charge = calculate_redemption_fee(
            redemption_rates,
            lot.purchase_date,
            date,
            net_asset_value,
            lot.share,
        ).unwrap();
        proof {
            lemma_holding_rate_bounded(redemption_rates@, date.days - lot.purchase_date.days);
            crate::units::lemma_rate_bounded(
                part as int,
                holding_rate(redemption_rates@, date.days - lot.purchase_date.days),
            );
        }
        value = sum;
        fee = fee + charge;
        i = i + 1;
    }
    assert(portions@.take(i as int) =~= portions@);
    Some((value, fee))
}

/// Fee tiers for investments and redemptions, each a list of
/// `(bound, rate)`. An investment below a bound of money is charged the rate
/// of the first such tier; a lot held at least a bound of days is charged
/// the rate of the last such tier.
pub struct FeeSchedule {
    investment_rates: Vec<(u64, u64)>,
    redemption_rates: Vec<(u64, u64)>,
}

/// Fee on an investment of `investment`: the rate of the first tier whose
/// bound exceeds it.
pub open spec fn investment_fee(tiers: Seq<(u64, u64)>, investment: int) -> int {
    mul_floor(investment, tier_rate(tiers, investment))
}

impl FeeSchedule {
    pub closed spec fn investment_tiers(&self) -> Seq<(u64, u64)> {
        self.investment_rates@
    }

    pub closed spec fn redemption_tiers(&self) -> Seq<(u64, u64)> {
        self.redemption_rates@
    }

    /// Every rate is at most one whole unit.
    #[verifier::type_invariant]
    spec fn inv(&self) -> bool {
        rates_bounded(self.investment_rates@) && rates_bounded(self.redemption_rates@)
    }

    /// A schedule with the given tiers. No rate is above one whole unit
    /// (100%), so that no fee is more than what it is charged on.
    pub fn new(investment_rates: Vec<(u64, u64)>, redemption_rates: Vec<(u64, u64)>) -> (r: Self)
        requires
            rates_bounded(investment_rates@),
            rates_bounded(redemption_rates@),
        ensures
            r.investment_tiers() == investment_rates@,
            r.redemption_tiers() == redemption_rates@,
    {
        FeeSchedule { investment_rates, redemption_rates }
    }

    /// A schedule that charges nothing.
    pub fn free() -> (r: Self)
        ensures
            r.investment_tiers().len() == 0,
            r.redemption_tiers().len() == 0,
    {
        FeeSchedule { investment_rates: Vec::new(), redemption_rates: Vec::new() }
    }

    /// The fee on an investment of `investment`, never more than it.
    pub fn investment_fee(&self, investment: u64) -> (fee: u64)
        ensures
            fee == investment_fee(self.investment_tiers(), investment as int),
            fee <= investment,
    {
        proof {
            use_type_invariant(self);
        }
        let rate = find_tier_rate(&self.investment_rates, investment as i128);
        proof {
            lemma_tier_rate_bounded(self.investment_rates@, investment as int);
            crate::units::lemma_rate_bounded(investment as int, rate as int);
        }
        mul_units(investment, rate).unwrap()
    }

    /// Total value and total fee of selling `portions` on `date`, or `None`
    /// where the value does not fit.
    pub fn redemption_totals(&self, date: Date, net_asset_value: u64, portions: &Vec<Lot>) -> (r:
        Option<(u64, u64)>)
        ensures
            r.is_some() == (portions_value(net_asset_value as int, portions@) <= u64::MAX),
            r matches Some((value, fee)) ==> {
                &&& value == portions_value(net_asset_value as int, portions@)
                &&& fee == portions_fee(
                    self.redemption_tiers(),
                    date.days as int,
                    net_asset_value as int,
                    portions@,
                )
                &&& fee <= value
            },
    {
        proof {
            use_type_invariant(self);
        }
        redemption_totals(&self.redemption_rates, date, net_asset_value, portions)
    }
}

/// A fee rule that keeps the lots bought in order and charges a redemption
/// by how long each lot it takes was held.
pub struct FIFO {
    queue: VecDeque<Lot>,
    schedule: FeeSchedule,
}

impl FIFO {
    pub closed spec fn lots(&self) -> Seq<Lot> {
        self.queue@
    }

    pub closed spec fn investment_tiers(&self) -> Seq<(u64, u64)> {
        self.schedule.investment_tiers()
    }

    pub closed spec fn redemption_tiers(&self) -> Seq<(u64, u64)> {
        self.schedule.redemption_tiers()
    }

    /// A rule with the given investment and redemption tiers, whose rates
    /// are at most 100%: the rule's fee is never more than what the order
    /// is worth.
    pub fn new(investment_rates: Vec<(u64, u64)>, redemption_rates: Vec<(u64, u64)>) -> (r: Self)
        requires
            rates_bounded(investment_rates@),
            rates_bounded(redemption_rates@),
        ensures
            r.lots() == Seq::<Lot>::empty(),
            r.investment_tiers() == investment_rates@,
            r.redemption_tiers() == redemption_rates@,
    {
        FIFO { queue: VecDeque::new(), schedule: FeeSchedule::new(investment_rates, redemption_rates) }
    }

    /// `after` is this rule once it has charged `fee` on `order`.
    pub open spec fn charged(&self, order: Order, after: Self, fee: u64) -> bool {
        &&& after.investment_tiers() == self.investment_tiers()
        &&& after.redemption_tiers() == self.redemption_tiers()
        &&& match order {
            Order::Investment { date, net_asset_value, investment } => {
                let share = div_floor(investment - fee, net_asset_value as int);
                &&& fee == investment_fee(self.investment_tiers(), investment as int)
                &&& if net_asset_value > 0 && share <= u64::MAX {
                    after.lots() == self.lots().push(
                        Lot { purchase_date: date, share: share as u64 },
                    )
                } else {
                    after.lots() == self.lots()
                }
            },
            Order::Redemption { date, net_asset_value, redemption } => {
                let portions = taken(self.lots(), redemption as int);
                if portions_value(net_asset_value as int, portions) <= u64::MAX {
                    &&& after.lots() == left(self.lots(), redemption as int)
                    &&& fee == portions_fee(
                        self.redemption_tiers(),
                        date.days as int,
                        net_asset_value as int,
                        portions,
                    )
                } else {
                    &&& after.lots() == self.lots()
                    &&& fee == u64::MAX
                }
            },
        }
    }

    /// The fee on `order`. An investment queues its lot; a redemption takes
    /// its shares from the oldest lots and is charged, lot by lot, the rate
    /// of the tier of how long each was held. Where the value of the shares
    /// does not fit, no lot is taken and the fee is `u64::MAX`.
    pub fn order_fee(&mut self, order: Order) -> (fee: u64)
        ensures
            old(self).charged(order, *final(self), fee),
            fee <= order.gross(),
    {
        match order {
            Order::Investment { date, net_asset_value, investment } => {
                let fee = self.schedule.investment_fee(investment);
                if net_asset_value > 0 {
                    if let Some(share) = div_units(investment - fee, net_asset_value) {
                        self.queue.push_back(Lot { purchase_date: date, share });
                    }
                }
                fee
            },
            Order::Redemption { date, net_asset_value, redemption } => {
                let portions = portions_of(&self.queue, redemption);
                proof {
                    let nav = net_asset_value as int;
                    lemma_taken_at_most(self.queue@, redemption as int);
                    lemma_portions_value_at_most_total(nav, portions@);
                    let t = share_sum(portions@);
                    let red = redemption as int;
                    let u = UNIT as int;
                    assert(t * nav / u <= nav * red / u) by (nonlinear_arith)
                        requires 0 <= t <= red, nav >= 0, u > 0;
                }
                match self.schedule.redemption_totals(date, net_asset_value, &portions) {
                    Some((_, fee)) => {
                        let _ = take_oldest(&mut self.queue, redemption);
                        fee
                    },
                    None => u64::MAX,
                }
            },
        }
    }
}

impl Rule for FIFO {
    open spec fn charges(&self, order: Order, after: Self, fee: u64) -> bool {
        self.charged(order, after, fee)
    }

    fn fee(&mut self, order: Order) -> (fee: u64) {
        self.order_fee(order)
    }
}

/// The value of portions, each rounded on its own, is at most the value of
/// their total share.
proof fn lemma_portions_value_at_most_total(nav: int, portions: Seq<Lot>)
    requires
        nav >= 0,
    ensures
        portions_value(nav, portions) <= mul_floor(share_sum(portions), nav),
    decreases portions.len(),
{
    if portions.len() > 0 {
        let front = portions.drop_last();
        let last = portions.last();
        lemma_portions_value_at_most_total(nav, front);
        assert(portions =~= front + seq![last]);
        lemma_share_sum_append(front, seq![last]);
        lemma_share_sum_one(last);
        let x = share_sum(front);
        let y = last.share as int;
        lemma_share_sum_nonnegative(front);
        let u = UNIT as int;
        assert(x * nav / u + y * nav / u <= (x + y) * nav / u) by (nonlinear_arith)
            requires x >= 0, y >= 0, nav >= 0, u > 0;
    }
}

proof fn lemma_share_sum_nonnegative(lots: Seq<Lot>)
    ensures
        share_sum(lots) >= 0,
    decreases lots.len(),
{
    if lots.len() > 0 {
        lemma_share_sum_nonnegative(lots.drop_first());
    }
}

/// With the FIFO rule, the ledger's holding stays the total share of the
/// rule's lots: an investment or a redemption that succeeds, having been
/// charged by the rule, moves both by the same share.
pub proof fn lemma_ledger_holding_is_lot_total(
    before: Repository<FIFO>,
    after: Repository<FIFO>,
    order: Order,
    fee: u64,
    r: Result<(), Error>,
)
    requires
        before.wf(),
        share_sum(before.rule_state().lots()) == last_info(before.infos()).holding_share,
        before.infos().len() < before.history().len(),
        before.rule_state().charges(order, after.rule_state(), fee),
        r is Ok,
        match order {
            Order::Investment { date, net_asset_value, investment } => {
                &&& before.history()[before.infos().len() as int] == (date, net_asset_value)
                &&& before.invest_outcome(&after, investment as int, fee as int, r)
            },
            Order::Redemption { date, net_asset_value, redemption } => {
                &&& before.history()[before.infos().len() as int] == (date, net_asset_value)
                &&& before.redeem_outcome(&after, redemption as int, fee as int, r)
            },
        },
    ensures
        share_sum(after.rule_state().lots()) == last_info(after.infos()).holding_share,
{
    let day = before.infos().len() as int;
    let nav = before.history()[day].1;
    assert(nav > 0);
    let info = last_info(before.infos());
    match order {
        Order::Investment { date, net_asset_value, investment } => {
            let share = div_floor(investment - fee, nav as int);
            lemma_fee_lowers_share(nav as int, investment as int, fee as int);
            lemma_share_sum_push(
                before.rule_state().lots(),
                Lot { purchase_date: date, share: share as u64 },
            );
        },
        Order::Redemption { date, net_asset_value, redemption } => {
            let lots = before.rule_state().lots();
            lemma_sell_oldest_first(lots, redemption as int);
            let portions = taken(lots, redemption as int);
            lemma_portions_value_at_most_total(nav as int, portions);
            assert(mul_floor(redemption as int, nav as int) == mul_floor(nav as int, redemption as int))
                by (nonlinear_arith);
        },
    }
}

} // verus!
