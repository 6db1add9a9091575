use fund::bank::{Bank, Message as BankMessage, Reply};
use fund::date::Date;
use fund::error::Error;
use fund::fifo::{FeeSchedule, Lot};
use fund::market::{
    is_valid_history, sort_by_date, Event, Market, Message as MarketMessage, Reply as MarketReply,
};
use fund::settlement::{Message, Outgoing, PendingPurchase, PendingRedemption, Repository};
use fund::units::UNIT;
use fund::world::{Command, Message as WorldMessage, World};

fn ymd(y: i32, m: u32, d: u32) -> Date {
    Date::from_ymd_opt(y, m, d).unwrap()
}

fn day(n: u32) -> Date {
    ymd(2021, 1, n)
}

fn confirm_purchase(repo: &mut Repository, amount: u64) -> PendingPurchase {
    let p = repo.buy(amount).unwrap();
    assert_eq!(repo.confirm(p.id), Ok(true));
    p
}

#[test]
fn market_terminates_after_n_minus_one_steps() {
    let points: Vec<(Date, u64)> = (1..=5).map(|d| (day(d), UNIT)).collect();
    let mut market = Market::new(points, day(6));
    assert_eq!(market.net_asset_value(), None);
    assert_eq!(market.next_trade_date(), day(1));
    for d in 1..=4u32 {
        assert_eq!(
            market.step(),
            Event::MarketStepped { date: day(d), net_asset_value: UNIT, next_date: day(d + 1) }
        );
    }
    assert_eq!(market.net_asset_value(), Some(UNIT));
    assert_eq!(market.step(), Event::MarketTerminated);
    assert_eq!(market.step(), Event::MarketTerminated);
    assert_eq!(market.next_trade_date(), day(6));
}

#[test]
fn market_of_one_point_terminates_at_once() {
    let mut market = Market::new(vec![(day(1), UNIT)], day(2));
    assert_eq!(market.step(), Event::MarketTerminated);
}

#[test]
fn bank_checks_without_debiting() {
    let mut bank = Bank::new(day(1), 100 * UNIT);
    assert_eq!(bank.process(BankMessage::BankToRepository(7, 100 * UNIT)), Reply::BankToRepositoryOk(7));
    assert_eq!(bank.process(BankMessage::BankToRepository(8, 100 * UNIT + 1)), Reply::BankToRepositoryErr(8));
    assert_eq!(bank.balance(), 100 * UNIT);
    assert_eq!(bank.process(BankMessage::Deposit(5)), Reply::Deposited);
    assert_eq!(bank.process(BankMessage::RepositoryToBank(3, 10)), Reply::RepositoryToBankOk(3));
    assert_eq!(bank.process(BankMessage::Balance), Reply::Balance(100 * UNIT + 15));
    assert_eq!(bank.process(BankMessage::Step(day(2))), Reply::BankStepped);
    assert_eq!(bank.date(), day(2));
    assert_eq!(bank.process(BankMessage::Stop), Reply::Stopped);
}

#[test]
fn bank_balance_never_goes_below_zero() {
    let mut bank = Bank::new(day(1), 0);
    assert_eq!(bank.process(BankMessage::BankToRepository(1, 1)), Reply::BankToRepositoryErr(1));
    assert_eq!(bank.process(BankMessage::Deposit(u64::MAX)), Reply::Deposited);
    assert_eq!(bank.process(BankMessage::Deposit(1)), Reply::DepositRefused);
    assert_eq!(bank.process(BankMessage::RepositoryToBank(2, 1)), Reply::RepositoryToBankErr(2));
    assert_eq!(bank.balance(), u64::MAX);
}

#[test]
fn world_runs_rounds_and_stops_both() {
    let mut world = World::new();
    assert_eq!(world.start(), vec![Command::StepMarket]);
    let stepped = WorldMessage::MarketStepped { date: day(1), net_asset_value: UNIT, next_date: day(2) };
    assert_eq!(
        world.process(stepped),
        vec![
            Command::StepBank(day(1)),
            Command::StepRepository { date: day(1), net_asset_value: UNIT, next_date: day(2) }
        ]
    );
    assert_eq!(world.process(WorldMessage::BankStepped), vec![]);
    assert_eq!(world.process(WorldMessage::RepositoryStepped), vec![Command::StepMarket]);
    // The next round counts afresh.
    world.process(WorldMessage::from_event(Event::MarketStepped {
        date: day(2),
        net_asset_value: UNIT,
        next_date: day(3),
    }));
    assert_eq!(world.process(WorldMessage::RepositoryStepped), vec![]);
    assert_eq!(world.process(WorldMessage::BankStepped), vec![Command::StepMarket]);
    assert_eq!(
        world.process(WorldMessage::from_event(Event::MarketTerminated)),
        vec![Command::StopBank, Command::StopRepository]
    );
    assert!(world.terminated());
    assert_eq!(world.process(WorldMessage::BankStepped), vec![]);
}

#[test]
fn settlement_over_alternating_prices() {
    let navs = [UNIT, 105_000_000, UNIT, 105_000_000, UNIT];
    let mut repo = Repository::new(FeeSchedule::free(), day(1), navs[0], day(2));
    // Day 1: buy 100 at 1.0.
    let p = confirm_purchase(&mut repo, 100 * UNIT);
    assert_eq!(p.share, 100 * UNIT);
    assert_eq!(p.finish_date, day(2));
    // Day 2: sell 50 at 1.05.
    assert!(repo.step(day(2), navs[1], day(3)).is_empty());
    let sale = repo.sell(50 * UNIT).unwrap();
    assert_eq!(sale.amount, 5_250_000_000);
    assert_eq!(sale.finish_date, day(3));
    // Day 3: pass; the sale settles.
    assert_eq!(repo.step(day(3), navs[2], day(4)), vec![sale]);
    // Day 4: buy 50 at 1.05.
    repo.step(day(4), navs[3], day(5));
    let p = confirm_purchase(&mut repo, 50 * UNIT);
    assert_eq!(p.share, 50 * UNIT * UNIT / 105_000_000);
    // Day 5: buy 100 at 1.0.
    repo.step(day(5), navs[4], day(6));
    let q = confirm_purchase(&mut repo, 100 * UNIT);
    assert_eq!(q.share, 100 * UNIT);
    assert_eq!(repo.invested_money(), 250 * UNIT);
    assert_eq!(repo.holding_share(), 150 * UNIT + 50 * UNIT * UNIT / 105_000_000);
}

#[test]
fn settlement_fee_tiers_by_holding_period() {
    let schedule = FeeSchedule::new(vec![], vec![(7, 1_500_000), (30, 500_000)]);
    let mut repo = Repository::new(schedule, day(1), UNIT, day(2));
    confirm_purchase(&mut repo, 100 * UNIT);
    // The lot is dated at its settlement, day 2.
    assert_eq!(repo.lots(), vec![Lot { purchase_date: day(2), share: 100 * UNIT }]);
    repo.step(day(7), UNIT, day(8));
    // Held five days: no tier reached yet.
    let early = repo.sell(10 * UNIT).unwrap();
    assert_eq!(early.amount, 10 * UNIT);
    repo.step(day(10), UNIT, day(11));
    // Nine days after the purchase: the 7-day tier, fee 0.15 on 10 x 1.0.
    let later = repo.sell(10 * UNIT).unwrap();
    assert_eq!(later.amount, 985_000_000);
    assert_eq!(repo.lots(), vec![Lot { purchase_date: day(2), share: 80 * UNIT }]);
}

#[test]
fn sell_takes_oldest_lots_first() {
    let mut repo = Repository::new(FeeSchedule::free(), day(1), UNIT, day(2));
    confirm_purchase(&mut repo, 30 * UNIT);
    repo.step(day(2), UNIT, day(3));
    confirm_purchase(&mut repo, 20 * UNIT);
    repo.step(day(3), UNIT, day(4));
    let sale = repo.sell(40 * UNIT).unwrap();
    assert_eq!(sale.amount, 40 * UNIT);
    assert_eq!(repo.lots(), vec![Lot { purchase_date: day(3), share: 10 * UNIT }]);
    assert_eq!(repo.holding_share(), 10 * UNIT);
    assert_eq!(repo.sell(11 * UNIT), Err(Error::Insufficient));
    assert_eq!(repo.holding_share(), 10 * UNIT);
}

#[test]
fn redemption_settles_on_first_step_at_or_after_its_date() {
    let mut repo = Repository::new(FeeSchedule::free(), day(1), UNIT, day(5));
    confirm_purchase(&mut repo, 10 * UNIT);
    let sale = repo.sell(UNIT).unwrap();
    assert_eq!(sale.finish_date, day(5));
    assert!(repo.step(day(3), UNIT, day(4)).is_empty());
    assert!(repo.step(day(4), UNIT, day(7)).is_empty());
    assert_eq!(repo.pending_redemptions(), &[sale]);
    assert_eq!(repo.step(day(6), UNIT, day(7)), vec![sale]);
    assert!(repo.pending_redemptions().is_empty());
}

#[test]
fn duplicate_bank_answers_are_ignored() {
    let mut repo = Repository::new(FeeSchedule::free(), day(1), UNIT, day(2));
    let p = repo.buy(10 * UNIT).unwrap();
    assert_eq!(repo.confirm(p.id), Ok(true));
    assert_eq!(repo.confirm(p.id), Ok(false));
    assert!(!repo.refuse(p.id));
    assert_eq!(repo.holding_share(), 10 * UNIT);
    let q = repo.buy(5 * UNIT).unwrap();
    assert!(repo.refuse(q.id));
    assert!(!repo.refuse(q.id));
    assert_eq!(repo.confirm(q.id), Ok(false));
    assert_eq!(repo.holding_share(), 10 * UNIT);
    assert_eq!(repo.invested_money(), 10 * UNIT);
}

#[test]
fn repository_messages() {
    let mut repo = Repository::new(FeeSchedule::free(), day(1), UNIT, day(2));
    let out = repo.process(Message::Buy(10 * UNIT));
    assert_eq!(out, vec![Outgoing::BankToRepository { id: 0, amount: 10 * UNIT }]);
    assert_eq!(repo.pending_purchases().len(), 1);
    assert!(repo.process(Message::BankToRepositoryOk(0)).is_empty());
    assert!(repo.process(Message::BankToRepositoryOk(0)).is_empty());
    let out = repo.process(Message::Sell(4 * UNIT));
    let sale = PendingRedemption { id: 1, finish_date: day(2), amount: 4 * UNIT };
    assert_eq!(out, vec![Outgoing::SellAccepted(sale)]);
    assert_eq!(repo.process(Message::Sell(7 * UNIT)), vec![Outgoing::SellRejected(Error::Insufficient)]);
    let out = repo.process(Message::Step { date: day(2), net_asset_value: UNIT, next_date: day(3) });
    assert_eq!(
        out,
        vec![Outgoing::RepositoryToBank { id: 1, amount: 4 * UNIT }, Outgoing::RepositoryStepped]
    );
    assert!(repo.process(Message::RepositoryToBankOk(1)).is_empty());
    assert_eq!(repo.process(Message::Stop), vec![Outgoing::Stopped]);
}

#[test]
fn investment_fee_reduces_share() {
    let schedule = FeeSchedule::new(vec![(1000 * UNIT, 1_500_000)], vec![]);
    assert_eq!(schedule.investment_fee(100 * UNIT), 150_000_000);
    let mut repo = Repository::new(schedule, day(1), 2 * UNIT, day(2));
    let p = repo.buy(100 * UNIT).unwrap();
    assert_eq!(p.share, (100 * UNIT - 150_000_000) / 2);
}

#[test]
fn histories_sort_and_validate() {
    let mixed = vec![(day(3), 3), (day(1), 1), (day(2), 2), (day(1), 4)];
    let sorted = sort_by_date(&mixed);
    assert_eq!(sorted, vec![(day(1), 1), (day(1), 4), (day(2), 2), (day(3), 3)]);
    assert!(!is_valid_history(&sorted));
    assert!(!is_valid_history(&mixed));
    assert!(is_valid_history(&vec![(day(1), 1), (day(2), 2)]));
    assert!(!is_valid_history(&vec![(day(1), 0)]));
    assert!(is_valid_history(&vec![]));
}

#[test]
fn market_queries_before_and_after_steps() {
    let mut market = Market::new(vec![(day(1), UNIT), (day(2), 2 * UNIT)], day(9));
    assert_eq!(
        market.step(),
        Event::MarketStepped { date: day(1), net_asset_value: UNIT, next_date: day(2) }
    );
    assert_eq!(market.next_trade_date(), day(2));
    assert_eq!(market.net_asset_value(), Some(UNIT));
    assert_eq!(market.step(), Event::MarketTerminated);
    assert_eq!(market.next_trade_date(), day(9));
    assert_eq!(market.net_asset_value(), Some(2 * UNIT));
}

#[test]
fn market_messages() {
    let mut market = Market::new(vec![(day(1), UNIT), (day(2), 2 * UNIT), (day(3), UNIT)], day(4));
    assert_eq!(market.process(MarketMessage::NetAssetValue), MarketReply::NetAssetValue(None));
    assert_eq!(market.process(MarketMessage::NextTradeDate), MarketReply::NextTradeDate(day(1)));
    assert_eq!(
        market.process(MarketMessage::Step),
        MarketReply::Stepped(Event::MarketStepped { date: day(1), net_asset_value: UNIT, next_date: day(2) })
    );
    assert_eq!(market.process(MarketMessage::NetAssetValue), MarketReply::NetAssetValue(Some(UNIT)));
    assert_eq!(market.process(MarketMessage::NextTradeDate), MarketReply::NextTradeDate(day(2)));
}
