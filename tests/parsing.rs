use fund::date::{Date, MAX_DAY, MIN_DAY};
use fund::decimal::{parse_amount, units_from_parts};
use fund::strategy::{parse_command, Plan};
use fund::units::{div_units, mul_units, UNIT};

#[test]
fn dates_count_days_from_the_common_era() {
    assert_eq!(Date::from_ymd_opt(1, 1, 1), Some(Date::from_days(1)));
    assert_eq!(Date::from_ymd_opt(2021, 1, 1), Some(Date::from_days(737_791)));
    assert_eq!(Date::from_ymd_opt(2021, 2, 29), None);
    assert_eq!(Date::from_ymd_opt(2020, 2, 29), Some(Date::from_days(737_484)));
    assert_eq!(Date::from_ymd_opt(2021, 13, 1), None);
    let a = Date::from_ymd_opt(2021, 2, 5).unwrap();
    let b = Date::from_ymd_opt(2021, 1, 1).unwrap();
    assert_eq!(a.days_since(&b), 35);
}

#[test]
fn amounts_parse_to_fixed_point() {
    assert_eq!(parse_amount("1.05"), Some(105_000_000));
    assert_eq!(parse_amount("100"), Some(100 * UNIT));
    assert_eq!(parse_amount("0.123456789"), Some(12_345_678));
    assert_eq!(parse_amount("-1"), None);
    assert_eq!(parse_amount("abc"), None);
    assert_eq!(parse_amount("1000000000000"), None);
}

#[test]
fn commands_parse() {
    assert_eq!(parse_command("p"), Some(Plan::Pass));
    assert_eq!(parse_command("i100"), Some(Plan::Buy(100 * UNIT)));
    assert_eq!(parse_command("r52.5"), Some(Plan::Sell(5_250_000_000)));
    assert_eq!(parse_command("i"), None);
    assert_eq!(parse_command("i1 0"), None);
    assert_eq!(parse_command("x1"), None);
    assert_eq!(parse_command("pp"), None);
}

#[test]
fn fixed_point_arithmetic() {
    assert_eq!(mul_units(50 * UNIT, 105_000_000), Some(5_250_000_000));
    assert_eq!(div_units(50 * UNIT, 105_000_000), Some(4_761_904_761));
    assert_eq!(mul_units(u64::MAX, 2 * UNIT), None);
    assert_eq!(div_units(u64::MAX, UNIT / 2), None);
}

#[test]
fn date_range_edges() {
    assert_eq!(Date::from_ymd_opt(0, 12, 31), Some(Date::from_days(0)));
    assert!(Date::from_ymd_opt(-4, 2, 29).is_some());
    assert_eq!(Date::from_ymd_opt(262_142, 12, 31), Some(Date::from_days(MAX_DAY)));
    assert_eq!(Date::from_ymd_opt(262_143, 1, 1), None);
    assert_eq!(Date::from_ymd_opt(-262_143, 1, 1), Some(Date::from_days(MIN_DAY)));
    assert_eq!(Date::from_ymd_opt(-262_144, 12, 31), None);
    assert_eq!(Date::from_ymd_opt(2021, 4, 31), None);
    assert_eq!(Date::from_ymd_opt(2021, 1, 0), None);
}

#[test]
fn decimal_parts_to_units() {
    assert_eq!(units_from_parts(105, 2), Some(105_000_000));
    assert_eq!(units_from_parts(1, 9), Some(0));
    assert_eq!(units_from_parts(-1, 0), None);
    assert_eq!(units_from_parts(184_467_440_738, 0), None);
}
