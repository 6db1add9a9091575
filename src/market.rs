//! The market actor: replays a net asset value history day by day.
use crate::date::Date;
use vstd::prelude::*;

verus! {

/// What the market is asked.
#[derive(Clone, Copy, Debug, PartialEq, Eq, Structural)]
pub enum Message {
    Step,
    NetAssetValue,
    NextTradeDate,
}

/// What a step of the market reports.
#[derive(Clone, Copy, Debug, PartialEq, Eq, Structural)]
pub enum Event {
    /// The day reached, its net asset value, and the next trading date.
    MarketStepped { date: Date, net_asset_value: u64, next_date: Date },
    /// The history is exhausted.
    MarketTerminated,
}

/// What the market answers.
#[derive(Clone, Copy, Debug, PartialEq, Eq, Structural)]
pub enum Reply {
    /// To the world: what the step reached.
    Stepped(Event),
    /// To the investor: the value of the day last reached, if any was.
    NetAssetValue(Option<u64>),
    /// To the investor: the next trading date.
    NextTradeDate(Date),
}

/// The market as mathematical values.
pub struct Replay {
    pub points: Seq<(Date, u64)>,
    pub cursor: nat,
    pub final_date: Date,
}

impl Replay {
    /// The date of the next trading day.
    pub open spec fn next_trade_date(self) -> Date {
        if self.cursor < self.points.len() {
            self.points[self.cursor as int].0
        } else {
            self.final_date
        }
    }

    /// The cursor after a step: it advances and never passes the end.
    pub open spec fn advanced(self) -> Replay {
        Replay {
            cursor: if self.cursor + 1 <= self.points.len() {
                self.cursor + 1
            } else {
                self.points.len()
            },
            ..self
        }
    }

    /// What a step reports.
    pub open spec fn event(self) -> Event {
        let next = self.advanced();
        if next.cursor >= self.points.len() {
            Event::MarketTerminated
        } else {
            Event::MarketStepped {
                date: self.points[next.cursor - 1].0,
                net_asset_value: self.points[next.cursor - 1].1,
                next_date: next.next_trade_date(),
            }
        }
    }

    /// The events of `k` steps in a row.
    pub open spec fn events(self, k: nat) -> Seq<Event>
        decreases k,
    {
        if k == 0 {
            seq![]
        } else {
            seq![self.event()] + self.advanced().events((k - 1) as nat)
        }
    }
}

/// Every value is positive and the dates strictly ascend.
pub open spec fn valid_history(points: Seq<(Date, u64)>) -> bool {
    &&& forall|i: int| 0 <= i < points.len() ==> #[trigger] points[i].1 > 0
    &&& forall|i: int, j: int|
        0 <= i < j < points.len() ==> (#[trigger] points[i]).0.days < (#[trigger] points[j]).0.days
}

pub struct Market {
    net_asset_values: Vec<(Date, u64)>,
    idx: usize,
    final_trade_date: Date,
}

impl View for Market {
    type V = Replay;

    closed spec fn view(&self) -> Replay {
        Replay {
            points: self.net_asset_values@,
            cursor: self.idx as nat,
            final_date: self.final_trade_date,
        }
    }
}

impl Market {
    pub open spec fn wf(&self) -> bool {
        &&& self@.cursor <= self@.points.len()
        &&& valid_history(self@.points)
    }

    /// A market replaying `net_asset_values`, whose trading continues to
    /// `final_date` once they are exhausted.
    pub fn new(net_asset_values: Vec<(Date, u64)>, final_date: Date) -> (r: Self)
        requires
            valid_history(net_asset_values@),
        ensures
            r.wf(),
            r@ == (Replay { points: net_asset_values@, cursor: 0, final_date }),
    {
        Market { net_asset_values, idx: 0, final_trade_date: final_date }
    }

    /// The date of the next trading day.
    pub fn next_trade_date(&self) -> (r: Date)
        requires
            self.wf(),
        ensures
            r == self@.next_trade_date(),
    {
        if self.idx < self.net_asset_values.len() {
            self.net_asset_values[self.idx].0
        } else {
            self.final_trade_date
        }
    }

    /// The net asset value of the day last reached, if any was.
    pub fn net_asset_value(&self) -> (r: Option<u64>)
        requires
            self.wf(),
        ensures
            r == (if self@.cursor == 0 {
                None
            } else {
                Some(self@.points[self@.cursor - 1].1)
            }),
    {
        if self.idx == 0 {
            None
        } else {
            Some(self.net_asset_values[self.idx - 1].1)
        }
    }

    /// Advances one trading day. With `N` days of history, the first `N - 1`
    /// steps report a day and the `N`-th reports termination.
    pub fn step(&mut self) -> (r: Event)
        requires
            old(self).wf(),
        ensures
            final(self).wf(),
            final(self)@ == old(self)@.advanced(),
            r == old(self)@.event(),
            r matches Event::MarketStepped { net_asset_value, .. } ==> net_asset_value > 0,
    {
        if self.idx < self.net_asset_values.len() {
            self.idx = self.idx + 1;
        }
        if self.idx >= self.net_asset_values.len() {
            Event::MarketTerminated
        } else {
            let (date, net_asset_value) = self.net_asset_values[self.idx - 1];
            Event::MarketStepped { date, net_asset_value, next_date: self.next_trade_date() }
        }
    }
}

impl Market {
    /// Handles one message.
    pub fn process(&mut self, message: Message) -> (r: Reply)
        requires
            old(self).wf(),
        ensures
            final(self).wf(),
            match message {
                Message::Step => final(self)@ == old(self)@.advanced() && r == Reply::Stepped(
                    old(self)@.event(),
                ),
                Message::NetAssetValue => final(self)@ == old(self)@ && r == Reply::NetAssetValue(
                    if old(self)@.cursor == 0 {
                        None
                    } else {
                        Some(old(self)@.points[old(self)@.cursor - 1].1)
                    },
                ),
                Message::NextTradeDate => final(self)@ == old(self)@ && r == Reply::NextTradeDate(
                    old(self)@.next_trade_date(),
                ),
            },
    {
        match message {
            Message::Step => Reply::Stepped(self.step()),
            Message::NetAssetValue => Reply::NetAssetValue(self.net_asset_value()),
            Message::NextTradeDate => Reply::NextTradeDate(self.next_trade_date()),
        }
    }
}

/// Whether every value is positive and the dates strictly ascend.
pub fn is_valid_history(points: &Vec<(Date, u64)>) -> (r: bool)
    ensures
        r == valid_history(points@),
{
    let mut i: usize = 0;
    while i < points.len()
        invariant
            i <= points@.len(),
            valid_history(points@.take(i as int)),
        decreases points@.len() - i,
    {
        let (date, nav) = points[i];
        if nav == 0 {
            assert(points@[i as int].1 == 0);
            return false;
        }
        if i > 0 && points[i - 1].0.days >= date.days {
            assert(!((points@[i - 1]).0.days < (points@[i as int]).0.days));
            return false;
        }
        proof {
            let p = points@.take(i + 1);
            let q = points@.take(i as int);
            assert forall|a: int, b: int| 0 <= a < b < p.len() implies (#[trigger] p[a]).0.days
                < (#[trigger] p[b]).0.days by {
                if b < i {
                    assert(p[a] == q[a] && p[b] == q[b]);
                } else if a < i - 1 {
                    assert(p[a] == q[a] && q[i - 1] == p[i - 1]);
                    assert(q[a].0.days < q[i - 1].0.days);
                }
            }
            assert forall|k: int| 0 <= k < p.len() implies #[trigger] p[k].1 > 0 by {
                if k < i {
                    assert(p[k] == q[k]);
                }
            }
        }
        i = i + 1;
    }
    assert(points@.take(i as int) =~= points@);
    true
}

/// The dates never go down.
pub open spec fn sorted_by_date(points: Seq<(Date, u64)>) -> bool {
    forall|a: int, b: int| 0 <= a < b < points.len() ==> (#[trigger] points[a]).0.days <= (
    #[trigger] points[b]).0.days
}

/// The same points, ordered by date.
pub fn sort_by_date(points: &Vec<(Date, u64)>) -> (r: Vec<(Date, u64)>)
    ensures
        sorted_by_date(r@),
        r@.to_multiset() == points@.to_multiset(),
{
    broadcast use vstd::seq_lib::group_to_multiset_ensures;

    let mut out: Vec<(Date, u64)> = Vec::new();
    let mut i: usize = 0;
    assert(points@.take(0) =~= Seq::<(Date, u64)>::empty());
    while i < points.len()
        invariant
            i <= points@.len(),
            sorted_by_date(out@),
            out@.to_multiset() == points@.take(i as int).to_multiset(),
        decreases points@.len() - i,
    {
        let x = points[i];
        let mut pos: usize = 0;
        while pos < out.len() && out[pos].0.days <= x.0.days
            invariant
                pos <= out@.len(),
                forall|j: int| 0 <= j < pos ==> (#[trigger] out@[j]).0.days <= x.0.days,
            decreases out@.len() - pos,
        {
            pos = pos + 1;
        }
        let ghost before = out@;
        out.insert(pos, x);
        proof {
            let after = out@;
            assert forall|a: int, b: int| 0 <= a < b < after.len() implies (#[trigger] after[a]).0.days
                <= (#[trigger] after[b]).0.days by {
                if pos < before.len() {
                    assert(before[pos as int].0.days > x.0.days);
                }
                if a < pos {
                    assert(after[a] == before[a]);
                    if b < pos {
                        assert(after[b] == before[b]);
                    } else if b > pos {
                        assert(after[b] == before[b - 1]);
                    }
                } else if a == pos {
                    assert(after[b] == before[b - 1]);
                    assert(before[pos as int].0.days <= before[b - 1].0.days || b - 1 == pos);
                } else {
                    assert(after[a] == before[a - 1]);
                    assert(after[b] == before[b - 1]);
                }
            }
            assert(points@.take(i + 1) =~= points@.take(i as int).push(x));
            vstd::seq_lib::to_multiset_insert(before, pos as int, x);
            vstd::seq_lib::to_multiset_build(points@.take(i as int), x);
        }
        i = i + 1;
    }
    assert(points@.take(i as int) =~= points@);
    out
}

/// A market over `N >= 1` days reports a day on each of its first `N - 1`
/// steps and terminates on the `N`-th.
pub proof fn lemma_terminates_after_last_day(m: Replay)
    requires
        m.cursor == 0,
        m.points.len() >= 1,
    ensures
        ({
            let n = m.points.len();
            let e = m.events(n);
            &&& e.len() == n
            &&& forall|j: int| 0 <= j < n - 1 ==> #[trigger] e[j] is MarketStepped
            &&& e[n - 1] == Event::MarketTerminated
        }),
{
    lemma_events_from(m, m.points.len());
}

proof fn lemma_events_from(m: Replay, k: nat)
    requires
        m.cursor <= m.points.len(),
    ensures
        m.events(k).len() == k,
        forall|j: int|
            0 <= j < k ==> (#[trigger] m.events(k)[j] is MarketStepped <==> m.cursor + j + 1
                < m.points.len()),
    decreases k,
{
    if k > 0 {
        let next = m.advanced();
        lemma_events_from(next, (k - 1) as nat);
        let e = m.events(k);
        assert forall|j: int| 0 <= j < k implies (#[trigger] e[j] is MarketStepped <==> m.cursor + j
            + 1 < m.points.len()) by {
            if j > 0 {
                assert(e[j] == next.events((k - 1) as nat)[j - 1]);
                if m.cursor == m.points.len() {
                    assert(next.cursor == m.cursor);
                }
            }
        }
    }
}

} // verus!
