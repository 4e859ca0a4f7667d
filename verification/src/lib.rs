//! # router-quote
//!
//! Preview transaction results before execution. Supports single-hop and
//! multi-hop quotes where the output of one pool feeds into the next.
//!
//! ## Multi-hop routing
//!
//! A multi-hop quote chains N liquidity plugin calls:
//!
//!   token_A -> [plugin_1] -> token_B -> [plugin_2] -> token_C
//!
//! Each plugin must implement `get_quote(token_in, token_out, amount_in) -> i128`.
//! The `amount_out` of hop N becomes the `amount_in` of hop N+1.
//! A fee is reckoned at each hop, on the amount that goes into it; the slippage
//! tolerance applies to the final output.
//!
//! ## Exchange rate
//!
//! Exchange rates are fixed-point integers with configurable decimal precision:
//!
//!   exchange_rate = (amount_out * 10^precision) / amount_in
//!
//! A rate of `2_000_000` with `precision = 6` means 2.000000 token_out per token_in.
//!
//! ## Events
//! - `fee_estimated` - emitted on each successful estimate (total_fee, surge_pricing)
//! - `quote_generated` - emitted on each successful quote (amount_in, amount_out, exchange_rate)
//!
//! ## Modules
//! - [`types`] - the records that callers exchange with the contract
//! - [`amounts`] - fees, rates and tolerances as integers, and in `i128`
//! - [`ledger`] - plugin calls and events of the contract on its ledger
//! - [`quote`] - single-hop and multi-hop quotes
//! - [`fees`] - fee estimates
//! - [`state`] - who waits for which transaction on the API server
//! - [`config`] - what the API server is started with
//! - [`laws`] - what holds of all of these together
//! - [`route_laws`] - what a route's plugin calls have to do with its outcome

pub mod amounts;
pub mod config;
pub mod fees;
pub mod laws;
pub mod ledger;
pub mod quote;
pub mod route_laws;
pub mod state;
pub mod types;
