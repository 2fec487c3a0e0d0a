use signal_ledger::config::Config;
use signal_ledger::ledger::TradingState;
use signal_ledger::risk::{check_position, position_pnl, ExitReason, RiskExit};
use signal_ledger::units::{CASH_UNIT, PRICE_UNIT, RATE_UNIT, STOP_LOSS, TAKE_PROFIT, TRADE_SIZE, TRANSACTION_COST};

const TEST_TRADE_SIZE: u64 = 100_000;
const TEST_TAKE_PROFIT: u64 = 10_000;
const TEST_STOP_LOSS: u64 = 20_000;
const TEST_TRANSACTION_COST: u64 = 5_000;
const FLOAT_TOLERANCE: f64 = 0.00001;

fn approx_equal(a: f64, b: f64, tolerance: f64) -> bool {
    (a - b).abs() < tolerance
}

fn price(units: f64) -> u64 {
    (units * PRICE_UNIT as f64).round() as u64
}

fn cash(units: i128) -> i128 {
    units * CASH_UNIT
}

fn in_units(cash: i128) -> f64 {
    cash as f64 / CASH_UNIT as f64
}

fn value(price: u64, size: u64) -> i128 {
    price as i128 * size as i128 * RATE_UNIT as i128
}

fn cost(price: u64, size: u64, fee: u64) -> i128 {
    price as i128 * size as i128 * fee as i128
}

#[test]
fn test_check_tp_sl() {
    let mut state = TradingState::new(cash(1000), "BTC/USDT");

    // Take profit: the position is sold at the bid.
    state.positions.push(price(100.0));
    state.check_tp_sl(price(102.0), TEST_TAKE_PROFIT, TEST_STOP_LOSS);
    let proceeds_tp = value(price(102.0), TEST_TRADE_SIZE);
    let transaction_cost_tp = cost(price(102.0), TEST_TRADE_SIZE, TEST_TRANSACTION_COST);
    let expected_cash_after_tp = cash(1000) + proceeds_tp - transaction_cost_tp;
    assert_eq!(state.positions.len(), 0);
    assert_eq!(state.cash, expected_cash_after_tp);
    assert!(
        approx_equal(
            in_units(state.cash),
            1000.0 + 102.0 * 0.001 - 102.0 * 0.001 * 0.005,
            FLOAT_TOLERANCE
        ),
        "Cash after TP not as expected. Got: {}, Expected: {}",
        state.cash,
        expected_cash_after_tp
    );

    // Stop loss: the position is sold at the bid.
    state.positions.push(price(100.0));
    state.check_tp_sl(price(98.0), TEST_TAKE_PROFIT, TEST_STOP_LOSS);
    let proceeds_sl = value(price(98.0), TEST_TRADE_SIZE);
    let transaction_cost_sl = cost(price(98.0), TEST_TRADE_SIZE, TEST_TRANSACTION_COST);
    let expected_cash_after_sl = expected_cash_after_tp + proceeds_sl - transaction_cost_sl;
    assert_eq!(state.positions.len(), 0);
    assert_eq!(state.cash, expected_cash_after_sl);
    assert!(
        approx_equal(
            in_units(state.cash),
            in_units(expected_cash_after_tp) + 98.0 * 0.001 - 98.0 * 0.001 * 0.005,
            FLOAT_TOLERANCE
        ),
        "Cash after SL not as expected. Got: {}, Expected: {}",
        state.cash,
        expected_cash_after_sl
    );
}

#[test]
fn standard_thresholds_in_units() {
    assert_eq!(TAKE_PROFIT, TEST_TAKE_PROFIT);
    assert_eq!(STOP_LOSS, TEST_STOP_LOSS);
    assert_eq!(TAKE_PROFIT as f64 / RATE_UNIT as f64, 0.01);
    assert_eq!(STOP_LOSS as f64 / RATE_UNIT as f64, 0.02);
}

#[test]
fn take_profit_closes_the_position() {
    let mut state = TradingState::new(cash(1000), "BTC/USDT");
    state.positions.push(price(100.0));
    let exits = state.check_tp_sl(price(102.0), TAKE_PROFIT, STOP_LOSS).unwrap();
    assert_eq!(
        exits,
        vec![RiskExit { entry_price: price(100.0), pnl: 20_000, reason: ExitReason::TakeProfit }]
    );
    assert!(state.positions.is_empty());
    assert_eq!(state.cash, 10_001_014_900_000_000_000_000_000);
    assert!(state.cash > cash(1000));
}

#[test]
fn stop_loss_closes_the_position() {
    let mut state = TradingState::new(cash(1000), "BTC/USDT");
    state.positions.push(price(100.0));
    let exits = state.check_tp_sl(price(98.0), TAKE_PROFIT, STOP_LOSS).unwrap();
    assert_eq!(
        exits,
        vec![RiskExit { entry_price: price(100.0), pnl: -20_000, reason: ExitReason::StopLoss }]
    );
    assert!(state.positions.is_empty());
    assert_eq!(state.cash, cash(1000) + price(98.0) as i128 * TRADE_SIZE as i128 * (RATE_UNIT - TRANSACTION_COST) as i128);
}

#[test]
fn positions_inside_the_band_stay() {
    let mut state = TradingState::new(cash(1000), "BTC/USDT");
    state.positions.push(price(100.0));
    for bid in [price(100.0), price(100.99), price(98.01), price(99.0)] {
        let exits = state.check_tp_sl(bid, TAKE_PROFIT, STOP_LOSS).unwrap();
        assert!(exits.is_empty());
        assert_eq!(state.positions, vec![price(100.0)]);
        assert_eq!(state.cash, cash(1000));
    }
}

#[test]
fn thresholds_are_inclusive() {
    assert_eq!(
        check_position(price(100.0), price(101.0), TAKE_PROFIT, STOP_LOSS).map(|e| e.reason),
        Some(ExitReason::TakeProfit)
    );
    assert_eq!(check_position(price(100.0), price(101.0) - 1, TAKE_PROFIT, STOP_LOSS), None);
    assert_eq!(
        check_position(price(100.0), price(98.0), TAKE_PROFIT, STOP_LOSS).map(|e| e.reason),
        Some(ExitReason::StopLoss)
    );
    assert_eq!(check_position(price(100.0), price(98.0) + 1, TAKE_PROFIT, STOP_LOSS), None);
}

#[test]
fn take_profit_is_decided_before_stop_loss() {
    let exit = check_position(100, 100, 0, 0).unwrap();
    assert_eq!(exit, RiskExit { entry_price: 100, pnl: 0, reason: ExitReason::TakeProfit });
    let exit = check_position(100, 99, 0, 0).unwrap();
    assert_eq!(exit, RiskExit { entry_price: 100, pnl: -10_000, reason: ExitReason::StopLoss });
}

#[test]
fn pnl_rounds_away_from_zero() {
    assert_eq!(position_pnl(3, 4), Some(333_334));
    assert_eq!(position_pnl(3, 2), Some(-333_334));
    assert_eq!(position_pnl(3, 3), Some(0));
    assert_eq!(position_pnl(1, u64::MAX), Some((u64::MAX as i128 - 1) * 1_000_000));
    assert_eq!(position_pnl(u64::MAX, 0), Some(-1_000_000));
    assert_eq!(position_pnl(price(100.0), price(102.0)), Some(20_000));
    assert_eq!(position_pnl(price(100.0), price(100.0) - 1), Some(-1));
    assert_eq!(position_pnl(price(100.0), price(100.0) + 1), Some(1));
}

#[test]
fn a_return_just_below_zero_takes_no_profit_at_a_threshold_of_zero() {
    let entry = price(100.0);
    assert_eq!(check_position(entry, entry - 1, 0, STOP_LOSS), None);
    let mut state = TradingState::new(cash(1000), "BTC/USDT");
    state.positions.push(entry);
    let exits = state.check_tp_sl(entry - 1, 0, STOP_LOSS).unwrap();
    assert!(exits.is_empty());
    assert_eq!(state.positions, vec![entry]);
    assert_eq!(state.cash, cash(1000));
    assert_eq!(
        check_position(entry, entry, 0, STOP_LOSS).map(|e| e.reason),
        Some(ExitReason::TakeProfit)
    );
}

#[test]
fn a_return_just_above_zero_stops_no_loss_at_a_threshold_of_zero() {
    let entry = price(100.0);
    assert_eq!(check_position(entry, entry + 1, TAKE_PROFIT, 0), None);
    let mut state = TradingState::new(cash(1000), "BTC/USDT");
    state.positions.push(entry);
    let exits = state.check_tp_sl(entry + 1, TAKE_PROFIT, 0).unwrap();
    assert!(exits.is_empty());
    assert_eq!(state.positions, vec![entry]);
    assert_eq!(state.cash, cash(1000));
    assert_eq!(
        check_position(entry, entry, TAKE_PROFIT, 0),
        Some(RiskExit { entry_price: entry, pnl: 0, reason: ExitReason::StopLoss })
    );
    assert_eq!(
        check_position(entry, entry - 1, TAKE_PROFIT, 0),
        Some(RiskExit { entry_price: entry, pnl: -1, reason: ExitReason::StopLoss })
    );
}

#[test]
fn exits_are_decided_on_the_exact_return() {
    // 1/3 is above 333_333 parts and below 333_334.
    assert_eq!(check_position(3, 4, 333_333, 0).map(|e| e.reason), Some(ExitReason::TakeProfit));
    assert_eq!(check_position(3, 4, 333_334, 1_000_000), None);
    assert_eq!(check_position(3, 2, 1_000_000, 333_333).map(|e| e.reason), Some(ExitReason::StopLoss));
    assert_eq!(check_position(3, 2, 1_000_000, 333_334), None);
    assert_eq!(
        check_position(u64::MAX, 0, u64::MAX, 1_000_000).map(|e| e.reason),
        Some(ExitReason::StopLoss)
    );
    assert_eq!(check_position(u64::MAX, 0, u64::MAX, 1_000_001), None);
    assert_eq!(check_position(u64::MAX, u64::MAX, u64::MAX, u64::MAX), None);
    assert_eq!(
        check_position(1, u64::MAX, u64::MAX, u64::MAX).map(|e| e.reason),
        Some(ExitReason::TakeProfit)
    );
}

#[test]
fn a_position_entered_at_zero_has_no_return_and_stays() {
    assert_eq!(position_pnl(0, price(100.0)), None);
    assert_eq!(position_pnl(0, 0), None);
    assert_eq!(check_position(0, price(100.0), 0, 0), None);
    let mut state = TradingState::new(cash(1), "BTC/USDT");
    state.positions.push(0);
    let exits = state.check_tp_sl(price(100.0), TAKE_PROFIT, STOP_LOSS).unwrap();
    assert!(exits.is_empty());
    assert_eq!(state.positions, vec![0]);
    assert_eq!(state.cash, cash(1));
}

#[test]
fn sweep_closes_each_qualifying_position_once_and_keeps_the_order() {
    let mut state = TradingState::new(cash(1000), "BTC/USDT");
    for entry in [100.0, 101.5, 100.0, 104.0, 99.0, 110.0] {
        state.positions.push(price(entry));
    }
    let exits = state.check_tp_sl(price(102.0), TAKE_PROFIT, STOP_LOSS).unwrap();
    assert_eq!(
        exits,
        vec![
            RiskExit { entry_price: price(100.0), pnl: 20_000, reason: ExitReason::TakeProfit },
            RiskExit { entry_price: price(100.0), pnl: 20_000, reason: ExitReason::TakeProfit },
            RiskExit { entry_price: price(99.0), pnl: 30_304, reason: ExitReason::TakeProfit },
            RiskExit { entry_price: price(110.0), pnl: -72_728, reason: ExitReason::StopLoss },
        ]
    );
    assert_eq!(state.positions, vec![price(101.5), price(104.0)]);
    let each = value(price(102.0), TRADE_SIZE) - cost(price(102.0), TRADE_SIZE, TRANSACTION_COST);
    assert_eq!(state.cash, cash(1000) + 4 * each);
}

#[test]
fn sweep_of_an_empty_ledger_does_nothing() {
    let mut state = TradingState::new(cash(1000), "BTC/USDT");
    assert_eq!(state.check_tp_sl(price(102.0), TAKE_PROFIT, STOP_LOSS), Some(Vec::new()));
    assert_eq!(state.cash, cash(1000));
    assert!(state.positions.is_empty());
}

#[test]
fn sweep_sells_at_the_configured_size_and_fee() {
    let config = Config::new(7, 0, 500_000, 500_000, 250_000).unwrap();
    let mut state = TradingState::with_config(0, "BTC/USDT", config);
    state.positions.push(10);
    state.positions.push(40);
    let exits = state.check_tp_sl(20, 1_000_000, 500_000).unwrap();
    assert_eq!(
        exits,
        vec![
            RiskExit { entry_price: 10, pnl: 1_000_000, reason: ExitReason::TakeProfit },
            RiskExit { entry_price: 40, pnl: -500_000, reason: ExitReason::StopLoss },
        ]
    );
    assert!(state.positions.is_empty());
    assert_eq!(state.cash, 2 * (20 * 7 * 1_000_000 - 7 * 20 * 250_000));
    assert_eq!(state.config, config);
    assert_eq!(state.symbol, "BTC/USDT");
}

#[test]
fn sweep_beyond_the_range_changes_nothing() {
    let config = Config { trade_size: u64::MAX, ..Config::default() };
    let mut state = TradingState::with_config(cash(1), "BTC/USDT", config);
    state.positions.push(1);
    state.positions.push(u64::MAX);
    assert_eq!(state.check_tp_sl(u64::MAX, TAKE_PROFIT, STOP_LOSS), None);
    assert_eq!(state.cash, cash(1));
    assert_eq!(state.positions, vec![1, u64::MAX]);

    let mut high = TradingState::with_config(i128::MAX - 2_000_000, "BTC/USDT", Config { trade_size: 1, fee_rate: 0, ..Config::default() });
    high.positions.push(1);
    high.positions.push(1);
    assert_eq!(high.check_tp_sl(2, 0, 0), None);
    assert_eq!(high.positions, vec![1, 1]);
    assert_eq!(high.cash, i128::MAX - 2_000_000);
    high.positions.pop();
    let exits = high.check_tp_sl(2, 0, 0).unwrap();
    assert_eq!(exits.len(), 1);
    assert!(high.positions.is_empty());
    assert_eq!(high.cash, i128::MAX);
}

#[test]
fn sweep_that_closes_nothing_never_fails() {
    let config = Config { trade_size: u64::MAX, fee_rate: u64::MAX, ..Config::default() };
    let mut state = TradingState::with_config(i128::MAX, "BTC/USDT", config);
    state.positions.push(u64::MAX);
    assert_eq!(state.check_tp_sl(u64::MAX, 1, 1), Some(Vec::new()));
    assert_eq!(state.positions, vec![u64::MAX]);
    assert_eq!(state.cash, i128::MAX);
}

#[test]
fn a_fee_above_one_whole_makes_the_sweep_cost_cash() {
    let config = Config { trade_size: 1, fee_rate: 3_000_000, ..Config::default() };
    let mut state = TradingState::with_config(0, "BTC/USDT", config);
    state.positions.push(5);
    state.positions.push(5);
    state.positions.push(6);
    let exits = state.check_tp_sl(5, 0, 0).unwrap();
    assert_eq!(exits.len(), 3);
    assert_eq!(state.cash, 3 * (5_000_000 - 15_000_000));
    let mut low = TradingState::with_config(i128::MIN + 1, "BTC/USDT", config);
    low.positions.push(5);
    assert_eq!(low.check_tp_sl(5, 0, 0), None);
    assert_eq!(low.positions, vec![5]);
}

#[test]
fn a_second_sweep_closes_nothing() {
    let mut state = TradingState::new(cash(1000), "BTC/USDT");
    for entry in [100.0, 101.5, 97.0, 110.0] {
        state.positions.push(price(entry));
    }
    let first = state.check_tp_sl(price(102.0), TAKE_PROFIT, STOP_LOSS).unwrap();
    assert_eq!(first.len(), 3);
    let cash_after = state.cash;
    let second = state.check_tp_sl(price(102.0), TAKE_PROFIT, STOP_LOSS).unwrap();
    assert!(second.is_empty());
    assert_eq!(state.positions, vec![price(101.5)]);
    assert_eq!(state.cash, cash_after);
}
