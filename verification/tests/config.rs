use signal_ledger::config::{Config, ConfigError};
use signal_ledger::units::{RATE_UNIT, SPREAD_THRESHOLD, STOP_LOSS, TAKE_PROFIT, TRADE_SIZE, TRANSACTION_COST};

#[test]
fn default_config_holds_the_standard_values() {
    let config = Config::default();
    assert_eq!(
        config,
        Config {
            trade_size: TRADE_SIZE,
            spread_threshold: SPREAD_THRESHOLD,
            take_profit: TAKE_PROFIT,
            stop_loss: STOP_LOSS,
            fee_rate: TRANSACTION_COST,
        }
    );
    assert_eq!(config.validate(), Ok(()));
    assert_eq!(config.trade_size, 100_000);
    assert_eq!(config.spread_threshold, 50_000);
    assert_eq!(config.take_profit, 10_000);
    assert_eq!(config.stop_loss, 20_000);
    assert_eq!(config.fee_rate, 5_000);
}

#[test]
fn new_config_keeps_its_values() {
    let config = Config::new(1, 2, 3, 4, 5).unwrap();
    assert_eq!(
        config,
        Config { trade_size: 1, spread_threshold: 2, take_profit: 3, stop_loss: 4, fee_rate: 5 }
    );
}

#[test]
fn bounds_of_a_config_are_inclusive() {
    assert!(Config::new(1, 0, 0, 0, 0).is_ok());
    assert!(Config::new(u64::MAX, RATE_UNIT, RATE_UNIT, RATE_UNIT, RATE_UNIT).is_ok());
}

#[test]
fn zero_trade_size_is_refused() {
    assert_eq!(Config::new(0, 0, 0, 0, 0), Err(ConfigError::TradeSizeNotPositive));
    let config = Config { trade_size: 0, ..Config::default() };
    assert_eq!(config.validate(), Err(ConfigError::TradeSizeNotPositive));
}

#[test]
fn spread_threshold_above_one_percent_is_refused() {
    assert_eq!(
        Config::new(1, RATE_UNIT + 1, 0, 0, 0),
        Err(ConfigError::SpreadThresholdOutOfRange)
    );
}

#[test]
fn take_profit_above_one_whole_is_refused() {
    assert_eq!(Config::new(1, 0, RATE_UNIT + 1, 0, 0), Err(ConfigError::TakeProfitOutOfRange));
}

#[test]
fn stop_loss_above_one_whole_is_refused() {
    assert_eq!(Config::new(1, 0, 0, RATE_UNIT + 1, 0), Err(ConfigError::StopLossOutOfRange));
}

#[test]
fn fee_rate_above_one_whole_is_refused() {
    assert_eq!(Config::new(1, 0, 0, 0, RATE_UNIT + 1), Err(ConfigError::FeeRateOutOfRange));
}

#[test]
fn the_first_fault_is_reported() {
    assert_eq!(
        Config::new(0, u64::MAX, u64::MAX, u64::MAX, u64::MAX),
        Err(ConfigError::TradeSizeNotPositive)
    );
    assert_eq!(
        Config::new(1, u64::MAX, u64::MAX, u64::MAX, u64::MAX),
        Err(ConfigError::SpreadThresholdOutOfRange)
    );
    assert_eq!(
        Config::new(1, 0, u64::MAX, u64::MAX, u64::MAX),
        Err(ConfigError::TakeProfitOutOfRange)
    );
    assert_eq!(Config::new(1, 0, 0, u64::MAX, u64::MAX), Err(ConfigError::StopLossOutOfRange));
}
