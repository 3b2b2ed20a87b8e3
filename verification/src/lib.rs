//! Ticker extraction and quote derivation for a stock chat helper.
//!
//! The library has two halves: a symbol extractor that scans free-form
//! message text for `$TICKER` mentions, and a quote derivation engine that
//! turns a fetched price series into display metrics (current price, day
//! high/low, percent change). All prices are fixed-point integers in a unit
//! chosen by the caller; the scale cancels everywhere except the percent
//! change, which is returned scaled by [`stock::PCT_SCALE`].

pub mod extract;
pub mod stock;
