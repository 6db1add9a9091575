use fund::date::Date;
use fund::error::Error;
use fund::fifo::FIFO;
use fund::repository::{DailyInfo, NoFee, Order, Repository, Rule, Transaction};
use fund::units::UNIT;

fn ymd(y: i32, m: u32, d: u32) -> Date {
    Date::from_ymd_opt(y, m, d).unwrap()
}

fn alternating_history() -> Vec<(Date, u64)> {
    (0..5u32)
        .map(|i| (ymd(2021, 1, 1 + i), if i & 1 == 0 { UNIT } else { 105_000_000 }))
        .collect()
}

#[test]
fn test_zero_fee() {
    let mut repo = Repository::new(NoFee, alternating_history()).unwrap();
    assert_eq!(repo.len(), 5);
    assert_eq!(repo.check().unwrap(), (ymd(2021, 1, 1), UNIT));
    assert!(repo.invest(100 * UNIT).is_ok());
    assert!(if let Err(Error::Insufficient) = repo.redeem(101 * UNIT) { true } else { false });
    assert_eq!(repo.daily_infos().last().unwrap().holding_share(), 100 * UNIT);
    assert_eq!(repo.check().unwrap(), (ymd(2021, 1, 2), 105_000_000));
    assert!(repo.redeem(50 * UNIT).is_ok());
    assert_eq!(repo.check().unwrap(), (ymd(2021, 1, 3), UNIT));
    assert!(repo.pass().is_ok());
    assert_eq!(repo.check().unwrap(), (ymd(2021, 1, 4), 105_000_000));
    assert!(repo.invest(50 * UNIT).is_ok());
    assert_eq!(repo.check().unwrap(), (ymd(2021, 1, 5), UNIT));
    assert!(repo.invest(100 * UNIT).is_ok());
    assert!(if let Err(Error::Overflow) = repo.check() { true } else { false });
    let third_share = 50 * UNIT * UNIT / 105_000_000;
    assert_eq!(third_share, 4_761_904_761);
    assert_eq!(
        repo.transactions(),
        &[
            Transaction::Investment {
                date: ymd(2021, 1, 1),
                net_asset_value: UNIT,
                investment: 100 * UNIT,
                share: 100 * UNIT,
                fee: 0
            },
            Transaction::Redemption {
                date: ymd(2021, 1, 2),
                net_asset_value: 105_000_000,
                redemption: 50 * UNIT,
                money: 5_250_000_000,
                fee: 0
            },
            Transaction::Investment {
                date: ymd(2021, 1, 4),
                net_asset_value: 105_000_000,
                investment: 50 * UNIT,
                share: third_share,
                fee: 0
            },
            Transaction::Investment {
                date: ymd(2021, 1, 5),
                net_asset_value: UNIT,
                investment: 100 * UNIT,
                share: 100 * UNIT,
                fee: 0
            }
        ]
    );
    assert_eq!(
        repo.daily_infos(),
        &[
            DailyInfo {
                transaction_id: 1,
                holding_price: UNIT,
                holding_share: 100 * UNIT,
                cumulative_investment: 100 * UNIT,
                cumulative_redemption: 0
            },
            DailyInfo {
                transaction_id: 2,
                holding_price: UNIT,
                holding_share: 50 * UNIT,
                cumulative_investment: 100 * UNIT,
                cumulative_redemption: 5_250_000_000
            },
            DailyInfo {
                transaction_id: 0,
                holding_price: UNIT,
                holding_share: 50 * UNIT,
                cumulative_investment: 100 * UNIT,
                cumulative_redemption: 5_250_000_000
            },
            DailyInfo {
                transaction_id: 3,
                holding_price: 100 * UNIT * UNIT / (50 * UNIT + third_share),
                holding_share: 50 * UNIT + third_share,
                cumulative_investment: 150 * UNIT,
                cumulative_redemption: 5_250_000_000
            },
            DailyInfo {
                transaction_id: 4,
                holding_price: 101_204_819,
                holding_share: 150 * UNIT + third_share,
                cumulative_investment: 250 * UNIT,
                cumulative_redemption: 5_250_000_000
            }
        ]
    );
    let last = repo.daily_infos().last().unwrap();
    assert_eq!(last.cumulative_income(), 5_250_000_000 - 250 * UNIT as i128);
    assert_eq!(last.transaction_id(), Some(3));
    assert_eq!(repo.daily_infos()[2].transaction_id(), None);
    assert!(if let Err(Error::Overflow) = repo.pass() { true } else { false });
}

#[test]
fn test_7_30() {
    let mut rule = FIFO::new(vec![], vec![(7, 1_500_000), (30, 500_000)]);
    assert_eq!(
        rule.fee(Order::Investment {
            date: ymd(2021, 1, 1),
            net_asset_value: UNIT,
            investment: 100 * UNIT
        }),
        0,
    );
    assert_eq!(
        rule.fee(Order::Redemption {
            date: ymd(2021, 1, 10),
            net_asset_value: UNIT,
            redemption: 10 * UNIT
        }),
        15_000_000,
    );
    assert_eq!(
        rule.fee(Order::Investment {
            date: ymd(2021, 2, 1),
            net_asset_value: UNIT,
            investment: 100 * UNIT
        }),
        0,
    );
    assert_eq!(
        rule.fee(Order::Redemption {
            date: ymd(2021, 2, 5),
            net_asset_value: 105_000_000,
            redemption: 190 * UNIT
        }),
        90 * 105 * 5 * UNIT / 100_000,
    );
}

#[test]
fn fifo_rule_charges_investment_tier() {
    let mut rule = FIFO::new(vec![(1000 * UNIT, 1_000_000)], vec![]);
    // 1% of 100 below the bound of 1000.
    assert_eq!(
        rule.fee(Order::Investment { date: ymd(2021, 1, 1), net_asset_value: UNIT, investment: 100 * UNIT }),
        UNIT
    );
    // At or above the bound no tier applies.
    assert_eq!(
        rule.fee(Order::Investment { date: ymd(2021, 1, 2), net_asset_value: UNIT, investment: 1000 * UNIT }),
        0
    );
}

#[test]
fn ledger_fee_tiers_by_holding_period() {
    let history: Vec<(Date, u64)> = (0..12u32).map(|i| (ymd(2021, 1, 1 + i), UNIT)).collect();
    let rule = FIFO::new(vec![], vec![(7, 1_500_000), (30, 500_000)]);
    let mut repo = Repository::new(rule, history).unwrap();
    assert!(repo.invest(100 * UNIT).is_ok());
    for _ in 0..4 {
        assert!(repo.pass().is_ok());
    }
    // Held five days: no tier reached yet.
    assert!(repo.redeem(10 * UNIT).is_ok());
    assert_eq!(
        repo.transactions()[1],
        Transaction::Redemption {
            date: ymd(2021, 1, 6),
            net_asset_value: UNIT,
            redemption: 10 * UNIT,
            money: 10 * UNIT,
            fee: 0
        }
    );
    for _ in 0..3 {
        assert!(repo.pass().is_ok());
    }
    // Held nine days: the 7-day tier, 1.5% of 10 x 1.0.
    assert!(repo.redeem(10 * UNIT).is_ok());
    assert_eq!(
        repo.transactions()[2],
        Transaction::Redemption {
            date: ymd(2021, 1, 10),
            net_asset_value: UNIT,
            redemption: 10 * UNIT,
            money: 985_000_000,
            fee: 15_000_000
        }
    );
}

#[test]
fn ledger_refuses_empty_history() {
    assert!(matches!(Repository::new(NoFee, vec![]), Err(Error::Insufficient)));
}

#[test]
fn ledger_invest_with_fee_above_amount_is_insufficient() {
    let mut repo = Repository::new(NoFee, alternating_history()).unwrap();
    assert_eq!(repo.invest_with_fee(10, 11), Err(Error::Insufficient));
    assert_eq!(repo.daily_infos().len(), 0);
    assert_eq!(repo.invest_with_fee(10 * UNIT, UNIT), Ok(()));
    assert_eq!(repo.daily_infos()[0].holding_share(), 9 * UNIT);
}

#[test]
fn error_names() {
    assert_eq!(Error::Insufficient.to_string(), "Insufficient");
    assert_eq!(Error::Overflow.to_string(), "Overflow");
}
