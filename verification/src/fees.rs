//! Fee estimates: the protocol fee of a route and the network fee of the
//! ledger, which doubles when the network is busy.

use soroban_sdk::Env;
use vstd::prelude::*;

use crate::amounts::{fee_amount, fee_on, fits_i128, BPS_DENOMINATOR};
use crate::ledger::{plugin_calls, published, PublishedEvent, RouterEvent};
use crate::quote::RouterQuote;
use crate::types::{FeeEstimateRequest, FeeEstimateResponse, QuoteError};

verus! {

/// Network fee of a transaction on a quiet network, in stroops.
pub const BASE_NETWORK_FEE: i128 = 100;

/// Network load in basis points from which surge pricing applies (80%).
pub const SURGE_LOAD_BPS: u32 = 8_000;

/// Whether a request meets surge pricing.
pub open spec fn surges(request: FeeEstimateRequest) -> bool {
    request.network_load_bps >= 8_000
}

/// The protocol fee of a request: its fee rate on its amount.
pub open spec fn protocol_fee_of(request: FeeEstimateRequest) -> int {
    fee_on(request.amount as int, request.fee_bps as int)
}

/// The network fee of a request, in stroops.
pub open spec fn network_fee_of(request: FeeEstimateRequest) -> int {
    if surges(request) {
        200
    } else {
        100
    }
}

/// The fee rate of a request after surge adjustment, in basis points.
pub open spec fn effective_bps_of(request: FeeEstimateRequest) -> int {
    if surges(request) {
        2 * request.fee_bps
    } else {
        request.fee_bps as int
    }
}

/// Whether the fees of a request can be computed in the types that hold them.
pub open spec fn estimate_fits(request: FeeEstimateRequest) -> bool {
    &&& fits_i128(request.amount * request.fee_bps)
    &&& fits_i128(protocol_fee_of(request) + network_fee_of(request))
    &&& effective_bps_of(request) <= u32::MAX
}

/// Whether an estimate is owed for a request: its amount is positive.
pub open spec fn is_estimable(request: FeeEstimateRequest) -> bool {
    request.amount > 0
}

/// The estimate for a request.
pub open spec fn estimate_of(request: FeeEstimateRequest) -> FeeEstimateResponse {
    FeeEstimateResponse {
        protocol_fee: protocol_fee_of(request) as i128,
        network_fee: network_fee_of(request) as i128,
        total_fee: (protocol_fee_of(request) + network_fee_of(request)) as i128,
        surge_pricing: surges(request),
        effective_fee_bps: effective_bps_of(request) as u32,
    }
}

/// The estimates for those requests that one is owed for, in their order.
pub open spec fn estimates_of(requests: Seq<FeeEstimateRequest>) -> Seq<FeeEstimateResponse> {
    requests.filter(|request| is_estimable(request)).map_values(|request| estimate_of(request))
}

/// The event that announces an estimate.
pub open spec fn announcement_of(estimate: FeeEstimateResponse) -> PublishedEvent {
    (RouterEvent::FeeEstimated {
        total_fee: estimate.total_fee,
        surge_pricing: estimate.surge_pricing,
    }).under_topic()
}

/// The events that announce estimates, in their order.
pub open spec fn announcements_of(estimates: Seq<FeeEstimateResponse>) -> Seq<PublishedEvent> {
    estimates.map_values(|estimate| announcement_of(estimate))
}

/// One request more adds its estimate behind the others, if one is owed for it.
proof fn lemma_estimates_extend(requests: Seq<FeeEstimateRequest>, count: int)
    requires
        0 <= count < requests.len(),
    ensures
        estimates_of(requests.take(count + 1)) == if is_estimable(requests[count]) {
            estimates_of(requests.take(count)).push(estimate_of(requests[count]))
        } else {
            estimates_of(requests.take(count))
        },
{
    reveal(Seq::filter);
    assert(requests.take(count + 1).drop_last() =~= requests.take(count));
    assert(requests.take(count + 1).last() == requests[count]);
    assert(estimates_of(requests.take(count + 1)) =~= if is_estimable(requests[count]) {
        estimates_of(requests.take(count)).push(estimate_of(requests[count]))
    } else {
        estimates_of(requests.take(count))
    });
}

impl FeeEstimateRequest {
    /// Whether the fees of the request stay within the types that hold them.
    pub fn fits(&self) -> (fits: bool)
        ensures
            fits == estimate_fits(*self),
    {
        let surge_pricing = self.network_load_bps >= SURGE_LOAD_BPS;
        let network_fee: i128 = if surge_pricing {
            BASE_NETWORK_FEE * 2
        } else {
            BASE_NETWORK_FEE
        };
        match fee_amount(self.amount, self.fee_bps) {
            Some(protocol_fee) => protocol_fee.checked_add(network_fee).is_some() && (
            !surge_pricing || self.fee_bps <= u32::MAX / 2),
            None => false,
        }
    }
}

impl RouterQuote {
    /// Estimate fees for a transaction.
    ///
    /// Computes protocol and network fees based on the transaction amount,
    /// the route's fee rate, and current network load. Surge pricing (2x
    /// network fee) is applied when `network_load_bps` >= 8000 (80%).
    ///
    /// # Arguments
    /// * `env` - The Soroban environment.
    /// * `request` - A [`FeeEstimateRequest`] describing the transaction parameters.
    ///
    /// # Returns
    /// A [`FeeEstimateResponse`] with a full fee breakdown.
    ///
    /// # Errors
    /// * [`QuoteError::InvalidAmount`] - if `request.amount` <= 0.
    pub fn estimate_fee(env: &mut Env, request: FeeEstimateRequest) -> (estimate: Result<
        FeeEstimateResponse,
        QuoteError,
    >)
        requires
            is_estimable(request) ==> estimate_fits(request),
        ensures
            !is_estimable(request) ==> {
                &&& estimate == Err::<FeeEstimateResponse, QuoteError>(QuoteError::InvalidAmount)
                &&& *final(env) == *old(env)
            },
            is_estimable(request) ==> {
                &&& estimate == Ok::<FeeEstimateResponse, QuoteError>(estimate_of(request))
                &&& published(*final(env)) == published(*old(env)).push(
                    announcement_of(estimate_of(request)),
                )
                &&& plugin_calls(*final(env)) == plugin_calls(*old(env))
            },
    {
        if request.amount <= 0 {
            return Err(QuoteError::InvalidAmount);
        }
        let protocol_fee: i128 = request.amount * request.fee_bps as i128 / BPS_DENOMINATOR;
        let (network_fee, surge_pricing, effective_fee_bps) = if request.network_load_bps
            >= SURGE_LOAD_BPS {
            (BASE_NETWORK_FEE * 2, true, request.fee_bps * 2)
        } else {
            (BASE_NETWORK_FEE, false, request.fee_bps)
        };
        let total_fee: i128 = protocol_fee + network_fee;
        let announcement = RouterEvent::FeeEstimated { total_fee, surge_pricing };
        announcement.publish(env);
        Ok(
            FeeEstimateResponse {
                protocol_fee,
                network_fee,
                total_fee,
                surge_pricing,
                effective_fee_bps,
            },
        )
    }

    /// Estimate fees for multiple transactions in one call.
    ///
    /// Processes each [`FeeEstimateRequest`] independently. Failed estimates
    /// (e.g., invalid amount) are skipped and not included in the result.
    pub fn estimate_fees(env: &mut Env, requests: Vec<FeeEstimateRequest>) -> (estimates: Vec<
        FeeEstimateResponse,
    >)
        requires
            forall|i: int|
                0 <= i < requests@.len() && is_estimable(#[trigger] requests@[i])
                    ==> estimate_fits(requests@[i]),
        ensures
            estimates@ == estimates_of(requests@),
            published(*final(env)) == published(*old(env)) + announcements_of(
                estimates_of(requests@),
            ),
            plugin_calls(*final(env)) == plugin_calls(*old(env)),
    {
        let ghost all = requests@;
        let ghost before = *env;
        let mut responses: Vec<FeeEstimateResponse> = Vec::new();
        assert(estimates_of(all.take(0)) =~= Seq::<FeeEstimateResponse>::empty());
        assert(published(*env) =~= published(before) + announcements_of(estimates_of(all.take(0))));
        for req in it: requests
            invariant
                it.seq() == all,
                forall|i: int|
                    0 <= i < all.len() && is_estimable(#[trigger] all[i]) ==> estimate_fits(all[i]),
                responses@ == estimates_of(all.take(it.index() as int)),
                published(*env) == published(before) + announcements_of(
                    estimates_of(all.take(it.index() as int)),
                ),
                plugin_calls(*env) == plugin_calls(before),
        {
            proof {
                lemma_estimates_extend(all, it.index() as int);
            }
            if let Ok(estimate) = Self::estimate_fee(env, req) {
                responses.push(estimate);
                assert(published(*env) =~= published(before) + announcements_of(responses@));
            }
        }
        assert(all.take(all.len() as int) =~= all);
        responses
    }
}

} // verus!
