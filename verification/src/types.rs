//! The records that quotes and fee estimates are made of.

use soroban_sdk::Address;
use vstd::prelude::*;

verus! {

/// Keys of the contract's storage.
pub enum DataKey {
    QuoteTtl,
}

/// A single hop in a multi-hop route.
#[derive(Clone, Debug, PartialEq)]
pub struct HopDescriptor {
    /// Liquidity plugin contract address for this hop.
    pub plugin: Address,
    /// Token being sold in this hop.
    pub token_in: Address,
    /// Token being received in this hop.
    pub token_out: Address,
    /// Fee rate for this hop in basis points (e.g. 30 = 0.30%).
    pub fee_bps: u32,
}

/// Result of a single hop.
#[derive(Clone, Debug, PartialEq)]
pub struct HopResult {
    pub token_in: Address,
    pub token_out: Address,
    pub amount_in: i128,
    pub amount_out: i128,
    pub fee_amount: i128,
}

/// Response for a single-hop or multi-hop quote.
#[derive(Clone, Debug, PartialEq)]
pub struct QuoteResponse {
    /// Final output amount after all hops.
    pub amount_out: i128,
    /// Total fees across all hops (in token_in units of each hop).
    pub total_fee_amount: i128,
    /// Minimum acceptable output after slippage tolerance.
    pub min_amount_out: i128,
    /// Exchange rate as fixed-point: (amount_out * 10^precision) / amount_in.
    pub exchange_rate: i128,
    /// Decimal places in `exchange_rate`.
    pub precision: u32,
    /// Price impact in basis points (negative = adverse). An impact beyond the
    /// range of `i32` is given as the bound that it is beyond.
    pub price_impact_bps: i32,
    /// Per-hop breakdown.
    pub hops: Vec<HopResult>,
}

/// Request parameters for fee estimation.
#[derive(Clone, Debug, PartialEq)]
pub struct FeeEstimateRequest {
    /// Amount of token_in being transacted (in stroops or token base units).
    pub amount: i128,
    /// Fee rate in basis points charged by the route (e.g., 30 = 0.30%).
    pub fee_bps: u32,
    /// Current network utilization in basis points (0-10000).
    /// Values of 8000 and above trigger surge pricing.
    pub network_load_bps: u32,
}

/// Estimated fee breakdown for a transaction.
#[derive(Clone, Debug, PartialEq)]
pub struct FeeEstimateResponse {
    /// Protocol fee charged by the route (in token_in base units).
    pub protocol_fee: i128,
    /// Network/gas fee in stroops.
    pub network_fee: i128,
    /// Total estimated fee (protocol + network).
    pub total_fee: i128,
    /// Whether surge pricing was applied due to high network load.
    pub surge_pricing: bool,
    /// Effective fee rate in basis points after surge adjustment.
    pub effective_fee_bps: u32,
}

/// What a quote or an estimate is refused for.
#[derive(Copy, Clone, Debug, PartialEq, Eq, Structural)]
pub enum QuoteError {
    InvalidAmount,
    RouteNotFound,
    QuoteFailed,
    InvalidPrecision,
    InvalidSlippage,
    EmptyRoute,
    RouteTooLong,
}

impl QuoteError {
    /// The number that stands for the error on the ledger.
    pub open spec fn ledger_code(self) -> u32 {
        match self {
            QuoteError::InvalidAmount => 1,
            QuoteError::RouteNotFound => 2,
            QuoteError::QuoteFailed => 3,
            QuoteError::InvalidPrecision => 4,
            QuoteError::InvalidSlippage => 5,
            QuoteError::EmptyRoute => 6,
            QuoteError::RouteTooLong => 7,
        }
    }

    /// The number under which the error is reported on the ledger.
    pub fn code(self) -> (code: u32)
        ensures
            code == self.ledger_code(),
    {
        match self {
            QuoteError::InvalidAmount => 1,
            QuoteError::RouteNotFound => 2,
            QuoteError::QuoteFailed => 3,
            QuoteError::InvalidPrecision => 4,
            QuoteError::InvalidSlippage => 5,
            QuoteError::EmptyRoute => 6,
            QuoteError::RouteTooLong => 7,
        }
    }
}

} // verus!
