use vstd::prelude::*;
use crate::units::{RATE_UNIT, SPREAD_THRESHOLD, STOP_LOSS, TAKE_PROFIT, TRADE_SIZE, TRANSACTION_COST};

verus! {

/// What a run is configured with; fixed once the ledger is built.
#[derive(Clone, Copy, Debug, PartialEq, Eq)]
pub struct Config {
    /// Size of every position, in lots.
    pub trade_size: u64,
    /// Widest spread at which an entry is considered, in parts of one percent.
    pub spread_threshold: u64,
    /// Return at which a position is closed with a profit, in parts.
    pub take_profit: u64,
    /// Loss at which a position is closed, in parts.
    pub stop_loss: u64,
    /// Fee charged on the value of every trade, in parts.
    pub fee_rate: u64,
}

/// Why a configuration is refused.
#[derive(Clone, Copy, Debug, PartialEq, Eq)]
pub enum ConfigError {
    /// The trade size is zero.
    TradeSizeNotPositive,
    /// The spread threshold is above one percent.
    SpreadThresholdOutOfRange,
    /// The take-profit threshold is above one whole.
    TakeProfitOutOfRange,
    /// The stop-loss threshold is above one whole.
    StopLossOutOfRange,
    /// The fee rate is above one whole.
    FeeRateOutOfRange,
}

impl Config {
    /// The first fault of a configuration, in the order of its fields, if it
    /// has one.
    pub open spec fn fault(self) -> Option<ConfigError> {
        if self.trade_size == 0 {
            Some(ConfigError::TradeSizeNotPositive)
        } else if self.spread_threshold > RATE_UNIT {
            Some(ConfigError::SpreadThresholdOutOfRange)
        } else if self.take_profit > RATE_UNIT {
            Some(ConfigError::TakeProfitOutOfRange)
        } else if self.stop_loss > RATE_UNIT {
            Some(ConfigError::StopLossOutOfRange)
        } else if self.fee_rate > RATE_UNIT {
            Some(ConfigError::FeeRateOutOfRange)
        } else {
            None
        }
    }

    /// A positive trade size, and every threshold and the fee between zero and
    /// one whole.
    pub open spec fn valid(self) -> bool {
        &&& self.trade_size > 0
        &&& self.spread_threshold <= RATE_UNIT
        &&& self.take_profit <= RATE_UNIT
        &&& self.stop_loss <= RATE_UNIT
        &&& self.fee_rate <= RATE_UNIT
    }

    /// The standard configuration: the constants of `units`.
    pub open spec fn standard() -> Config {
        Config {
            trade_size: TRADE_SIZE,
            spread_threshold: SPREAD_THRESHOLD,
            take_profit: TAKE_PROFIT,
            stop_loss: STOP_LOSS,
            fee_rate: TRANSACTION_COST,
        }
    }

    /// A configuration is valid exactly when it has no fault.
    pub proof fn lemma_valid_iff_no_fault(self)
        ensures
            self.valid() <==> self.fault() is None,
    {
    }

    /// Checks a configuration before a run starts.
    pub fn validate(&self) -> (r: Result<(), ConfigError>)
        ensures
            r is Ok <==> self.valid(),
            r is Err ==> self.fault() == Some(r->Err_0),
    {
        if self.trade_size == 0 {
            Err(ConfigError::TradeSizeNotPositive)
        } else if self.spread_threshold > RATE_UNIT {
            Err(ConfigError::SpreadThresholdOutOfRange)
        } else if self.take_profit > RATE_UNIT {
            Err(ConfigError::TakeProfitOutOfRange)
        } else if self.stop_loss > RATE_UNIT {
            Err(ConfigError::StopLossOutOfRange)
        } else if self.fee_rate > RATE_UNIT {
            Err(ConfigError::FeeRateOutOfRange)
        } else {
            Ok(())
        }
    }

    /// Builds a configuration from its five values, or says which of them is
    /// at fault.
    pub fn new(
        trade_size: u64,
        spread_threshold: u64,
        take_profit: u64,
        stop_loss: u64,
        fee_rate: u64,
    ) -> (r: Result<Config, ConfigError>)
        ensures
            ({
                let c = Config { trade_size, spread_threshold, take_profit, stop_loss, fee_rate };
                match r {
                    Ok(config) => config == c && c.valid(),
                    Err(e) => c.fault() == Some(e),
                }
            }),
    {
        let config = Config { trade_size, spread_threshold, take_profit, stop_loss, fee_rate };
        match config.validate() {
            Ok(()) => Ok(config),
            Err(e) => Err(e),
        }
    }
}

impl Default for Config {
    /// The standard configuration.
    fn default() -> (config: Config)
        ensures
            config == Config::standard(),
            config.valid(),
    {
        Config {
            trade_size: TRADE_SIZE,
            spread_threshold: SPREAD_THRESHOLD,
            take_profit: TAKE_PROFIT,
            stop_loss: STOP_LOSS,
            fee_rate: TRANSACTION_COST,
        }
    }
}

} // verus!
