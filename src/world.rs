//! The world actor: drives rounds of market, bank and repository steps.
use crate::date::Date;
use crate::market::Event;
use vstd::prelude::*;

verus! {

/// Acknowledgements that complete a round: the market's step, then the
/// bank's and the repository's.
pub const COUNT_TO_STEP: usize = 3;

/// What the world is told.
#[derive(Clone, Copy, Debug, PartialEq, Eq, Structural)]
pub enum Message {
    MarketStepped { date: Date, net_asset_value: u64, next_date: Date },
    BankStepped,
    RepositoryStepped,
    MarketTerminated,
}

/// What the world asks of the others.
#[derive(Clone, Copy, Debug, PartialEq, Eq, Structural)]
pub enum Command {
    StepMarket,
    StepBank(Date),
    StepRepository { date: Date, net_asset_value: u64, next_date: Date },
    StopBank,
    StopRepository,
}

impl Message {
    /// The message that a market event becomes.
    pub fn from_event(event: Event) -> (r: Message)
        ensures
            r == (match event {
                Event::MarketStepped { date, net_asset_value, next_date } => Message::MarketStepped {
                    date,
                    net_asset_value,
                    next_date,
                },
                Event::MarketTerminated => Message::MarketTerminated,
            }),
    {
        match event {
            Event::MarketStepped { date, net_asset_value, next_date } => Message::MarketStepped {
                date,
                net_asset_value,
                next_date,
            },
            Event::MarketTerminated => Message::MarketTerminated,
        }
    }
}

pub struct World {
    count: usize,
    terminated: bool,
}

impl World {
    /// Acknowledgements received in the current round.
    pub closed spec fn received(&self) -> nat {
        self.count as nat
    }

    pub closed spec fn is_terminated(&self) -> bool {
        self.terminated
    }

    pub open spec fn wf(&self) -> bool {
        self.received() < COUNT_TO_STEP
    }

    pub fn new() -> (r: Self)
        ensures
            r.wf(),
            r.received() == 0,
            !r.is_terminated(),
    {
        World { count: 0, terminated: false }
    }

    pub fn terminated(&self) -> (r: bool)
        ensures
            r == self.is_terminated(),
    {
        self.terminated
    }

    /// The first command: step the market.
    pub fn start(&self) -> (r: Vec<Command>)
        ensures
            r@ == seq![Command::StepMarket],
    {
        let mut r: Vec<Command> = Vec::new();
        r.push(Command::StepMarket);
        r
    }

    /// Handles one message. A market step is passed on to the bank and the
    /// repository; once the market's and both their acknowledgements are in,
    /// the market is stepped again. When the market terminates, the bank
    /// and the repository are stopped and the world ends; after that every
    /// message is ignored.
    pub fn process(&mut self, message: Message) -> (r: Vec<Command>)
        requires
            old(self).wf(),
        ensures
            final(self).wf(),
            old(self).is_terminated() ==> r@.len() == 0 && final(self).received() == old(self).received()
                && final(self).is_terminated(),
            !old(self).is_terminated() ==> match message {
                Message::MarketTerminated => {
                    &&& r@ == seq![Command::StopBank, Command::StopRepository]
                    &&& final(self).is_terminated()
                },
                _ => {
                    let forwarded = match message {
                        Message::MarketStepped { date, net_asset_value, next_date } => seq![
                            Command::StepBank(date),
                            Command::StepRepository { date, net_asset_value, next_date },
                        ],
                        _ => Seq::<Command>::empty(),
                    };
                    &&& !final(self).is_terminated()
                    &&& if old(self).received() + 1 == COUNT_TO_STEP {
                        &&& r@ == forwarded.push(Command::StepMarket)
                        &&& final(self).received() == 0
                    } else {
                        &&& r@ == forwarded
                        &&& final(self).received() == old(self).received() + 1
                    }
                },
            },
    {
        let mut r: Vec<Command> = Vec::new();
        if self.terminated {
            return r;
        }
        match message {
            Message::MarketStepped { date, net_asset_value, next_date } => {
                r.push(Command::StepBank(date));
                r.push(Command::StepRepository { date, net_asset_value, next_date });
            },
            Message::BankStepped => {},
            Message::RepositoryStepped => {},
            Message::MarketTerminated => {
                r.push(Command::StopBank);
                r.push(Command::StopRepository);
                self.terminated = true;
                return r;
            },
        }
        self.count = self.count + 1;
        if self.count == COUNT_TO_STEP {
            r.push(Command::StepMarket);
            self.count = 0;
        }
        r
    }
}

} // verus!
