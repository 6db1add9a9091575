use fund::date::Date;
use fund::sim::bank::{Bank, BankError};
use fund::sim::market::Market;
use fund::sim::repository::{Repository, RepositoryError};
use fund::sim::trade::Trade;
use fund::sim::week_rule::WeekRule;
use fund::sim::world::{World, WorldError};
use fund::strategy::Plan;
use fund::units::UNIT;

fn day(n: u32) -> Date {
    Date::from_ymd_opt(2021, 1, n).unwrap()
}

#[test]
fn bank_deposit_lands_next_day() {
    let mut bank = Bank::new(100);
    assert_eq!(bank.deposit(0), Err(BankError::DepositError));
    assert_eq!(bank.deposit(50), Ok(()));
    assert_eq!(bank.balance(), 100);
    assert_eq!(bank.pass(), Ok(()));
    assert_eq!(bank.balance(), 150);
    assert_eq!(bank.withdraw(151), Err(BankError::WithdrawError));
    assert_eq!(bank.withdraw(150), Ok(()));
    assert_eq!(bank.balance(), 0);
    assert_eq!(BankError::WithdrawError.to_string(), "WithdrawError");
}

#[test]
fn market_hands_out_days_in_order() {
    let mut market = Market::new(vec![(day(1), UNIT), (day(2), 2 * UNIT)]);
    assert!(market.nav_history().is_empty());
    assert_eq!(market.next(), Some((day(1), UNIT)));
    assert_eq!(market.nav_history(), &[(day(1), UNIT)]);
    assert_eq!(market.next(), Some((day(2), 2 * UNIT)));
    assert_eq!(market.next(), None);
}

#[test]
fn trade_share_and_money() {
    let buy = Trade::buy(day(1), 2 * UNIT, 10 * UNIT);
    assert_eq!(buy.share(), 5 * UNIT as i128);
    assert_eq!(buy.money(), 10 * UNIT as i128);
    let sell = Trade::sell(day(2), 2 * UNIT, 3 * UNIT);
    assert_eq!(sell.share(), -3 * UNIT as i128);
    assert_eq!(sell.money(), -6 * UNIT as i128);
    assert_eq!(sell.date(), day(2));
    assert_eq!(sell.price(), 2 * UNIT);
}

#[test]
fn week_rule_charges_young_shares() {
    let mut rule = WeekRule::new();
    assert_eq!(rule.buy_lot(day(1), UNIT, 9 * UNIT), Err(RepositoryError::BuyError));
    assert_eq!(rule.buy_lot(day(1), UNIT, 100 * UNIT), Ok(Trade::buy(day(1), UNIT, 100 * UNIT)));
    assert_eq!(rule.buy_lot(day(10), UNIT, 100 * UNIT), Ok(Trade::buy(day(10), UNIT, 100 * UNIT)));
    // On day 12 the first lot (dated day 2) is free, the second (day 11) is not:
    // half of the 200 shares were held less than a week.
    let sale = rule.sell_lots(day(12), UNIT, 200 * UNIT).unwrap();
    assert_eq!(sale, Trade::sell(day(12), UNIT - UNIT * 15 / 2000, 200 * UNIT));
    assert_eq!(rule.sell_lots(day(12), UNIT, 1), Err(RepositoryError::SellError));
}

#[test]
fn repository_confirms_a_day_later() {
    let mut repo = Repository::new("000001", WeekRule::new());
    assert_eq!(repo.code(), "000001");
    assert_eq!(repo.buy(day(1), UNIT, 0), Err(RepositoryError::BuyError));
    assert_eq!(repo.buy(day(1), UNIT, 100 * UNIT), Ok(()));
    assert_eq!(repo.holding_share(), 0);
    assert!(repo.uncomfirmed_trade().is_some());
    assert_eq!(repo.pass(), Ok(()));
    assert_eq!(repo.holding_share(), 100 * UNIT as i128);
    assert_eq!(repo.invested_money(), 100 * UNIT as i128);
    assert_eq!(repo.trading_history().len(), 1);
    assert_eq!(repo.sell(day(3), UNIT, 101 * UNIT), Err(RepositoryError::SellError));
    // The whole holding may be sold.
    assert_eq!(repo.sell(day(3), UNIT, 100 * UNIT), Ok(()));
    assert_eq!(repo.sell(day(3), UNIT, 0), Err(RepositoryError::SellError));
    assert_eq!(RepositoryError::SellError.to_string(), "SellError");
}

#[test]
fn world_carries_out_plans() {
    let market = Market::new((1..=7).map(|d| (day(d), UNIT)).collect());
    let repo = Repository::new("000001", WeekRule::new());
    let mut world = World::new(Bank::new(100 * UNIT), market, repo);
    assert_eq!(world.update(Plan::Buy(150 * UNIT)), Err(WorldError::Bank(BankError::WithdrawError)));
    // Below the rule's minimum: refused, and the money is refunded.
    assert_eq!(world.update(Plan::Buy(5 * UNIT)), Err(WorldError::Repository(RepositoryError::BuyError)));
    assert_eq!(world.bank().balance(), 100 * UNIT);
    assert_eq!(world.update(Plan::Buy(50 * UNIT)), Ok(true));
    assert_eq!(world.bank().balance(), 50 * UNIT);
    assert_eq!(world.update(Plan::Pass), Ok(true));
    assert_eq!(world.repository().holding_share(), 50 * UNIT as i128);
    assert_eq!(world.market().nav_history().len(), 4);
    // Held two days: the price is cut by 1.5%, and so is what is deposited.
    assert_eq!(world.update(Plan::Sell(50 * UNIT)), Ok(true));
    assert_eq!(world.bank().balance(), 50 * UNIT);
    assert_eq!(world.update(Plan::Pass), Ok(true));
    assert_eq!(world.bank().balance(), 50 * UNIT + 50 * 98_500_000);
    assert_eq!(world.repository().holding_share(), 0);
    assert_eq!(world.update(Plan::Pass), Ok(true));
    assert_eq!(world.update(Plan::Pass), Ok(false));
}
