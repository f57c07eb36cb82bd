//! The oracle, DEX and epoch values that queries return.

use crate::decimal::Decimal;
use vstd::prelude::*;

verus! {

/// One update of a denomination's exchange rate.
#[derive(Clone, Copy, Debug, PartialEq, Eq, Structural, Hash)]
pub struct OracleExchangeRate {
    pub exchange_rate: Decimal,
    /// The time of the update, in seconds.
    pub last_update: u64,
    pub last_update_timestamp: i64,
}

/// An exchange rate with the denomination that it prices.
#[derive(Debug, PartialEq)]
pub struct DenomOracleExchangeRatePair {
    pub denom: String,
    pub oracle_exchange_rate: OracleExchangeRate,
}

/// What a [`DenomOracleExchangeRatePair`] holds, with its denomination as
/// a character sequence.
pub struct DenomOracleExchangeRatePairView {
    pub denom: Seq<char>,
    pub oracle_exchange_rate: OracleExchangeRate,
}

impl View for DenomOracleExchangeRatePair {
    type V = DenomOracleExchangeRatePairView;

    open spec fn view(&self) -> DenomOracleExchangeRatePairView {
        DenomOracleExchangeRatePairView {
            denom: self.denom@,
            oracle_exchange_rate: self.oracle_exchange_rate,
        }
    }
}

impl DeepView for DenomOracleExchangeRatePair {
    type V = DenomOracleExchangeRatePairView;

    open spec fn deep_view(&self) -> DenomOracleExchangeRatePairView {
        self@
    }
}

impl Clone for DenomOracleExchangeRatePair {
    fn clone(&self) -> (r: DenomOracleExchangeRatePair)
        ensures
            r == *self,
    {
        DenomOracleExchangeRatePair {
            denom: self.denom.clone(),
            oracle_exchange_rate: self.oracle_exchange_rate,
        }
    }
}

/// The time-weighted average of a denomination's exchange rate.
#[derive(Debug, PartialEq)]
pub struct OracleTwap {
    pub denom: String,
    pub twap: Decimal,
    pub lookback_seconds: u64,
}

/// What an [`OracleTwap`] holds, with its denomination as a character
/// sequence.
pub struct OracleTwapView {
    pub denom: Seq<char>,
    pub twap: Decimal,
    pub lookback_seconds: u64,
}

impl View for OracleTwap {
    type V = OracleTwapView;

    open spec fn view(&self) -> OracleTwapView {
        OracleTwapView {
            denom: self.denom@,
            twap: self.twap,
            lookback_seconds: self.lookback_seconds,
        }
    }
}

impl DeepView for OracleTwap {
    type V = OracleTwapView;

    open spec fn deep_view(&self) -> OracleTwapView {
        self@
    }
}

/// A market: the asset traded and the denomination of its price, with the
/// tick sizes of price and quantity.
#[derive(Debug, PartialEq)]
pub struct DexPair {
    pub price_denom: String,
    pub asset_denom: String,
    pub price_tick_size: Decimal,
    pub quantity_tick_size: Decimal,
}

/// What a [`DexPair`] holds, with its denominations as character
/// sequences.
pub struct DexPairView {
    pub price_denom: Seq<char>,
    pub asset_denom: Seq<char>,
    pub price_tick_size: Decimal,
    pub quantity_tick_size: Decimal,
}

impl View for DexPair {
    type V = DexPairView;

    open spec fn view(&self) -> DexPairView {
        DexPairView {
            price_denom: self.price_denom@,
            asset_denom: self.asset_denom@,
            price_tick_size: self.price_tick_size,
            quantity_tick_size: self.quantity_tick_size,
        }
    }
}

/// The time-weighted average price of a market.
#[derive(Debug, PartialEq)]
pub struct DexTwap {
    pub pair: DexPair,
    pub twap: Decimal,
    pub lookback_seconds: u64,
}

/// What a [`DexTwap`] holds, with its denominations as character
/// sequences.
pub struct DexTwapView {
    pub pair: DexPairView,
    pub twap: Decimal,
    pub lookback_seconds: u64,
}

impl View for DexTwap {
    type V = DexTwapView;

    open spec fn view(&self) -> DexTwapView {
        DexTwapView { pair: self.pair@, twap: self.twap, lookback_seconds: self.lookback_seconds }
    }
}

impl DeepView for DexTwap {
    type V = DexTwapView;

    open spec fn deep_view(&self) -> DexTwapView {
        self@
    }
}

/// The chain's epoch clock.
#[derive(Debug, PartialEq)]
pub struct Epoch {
    /// ISO 8601, UTC.
    pub genesis_time: String,
    /// In nanoseconds.
    pub duration: u64,
    pub current_epoch: u64,
    /// ISO 8601, UTC.
    pub current_epoch_start_time: String,
    pub current_epoch_height: i64,
}

impl Clone for Epoch {
    fn clone(&self) -> (r: Epoch)
        ensures
            r == *self,
    {
        Epoch {
            genesis_time: self.genesis_time.clone(),
            duration: self.duration,
            current_epoch: self.current_epoch,
            current_epoch_start_time: self.current_epoch_start_time.clone(),
            current_epoch_height: self.current_epoch_height,
        }
    }
}

} // verus!
