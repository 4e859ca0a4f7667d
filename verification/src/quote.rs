//! Quotes: what a route of liquidity plugins pays out for an amount.
//!
//! A multi-hop quote chains plugin calls:
//!
//!   token_A -> [plugin_1] -> token_B -> [plugin_2] -> token_C
//!
//! The `amount_out` of a hop becomes the `amount_in` of the next one.

use soroban_sdk::{Address, Env};
use vstd::arithmetic::power::pow;
use vstd::prelude::*;

use crate::amounts::{
    clamp_i32, exchange_rate, fee_amount, fee_on, fits_i128, impact_of, lemma_pow10_fits,
    min_amount_out, min_out_after, price_impact_bps, rate_of,
};
use crate::ledger::{
    ask_plugin, is_contract, names_contract, plugin_calls, published, PluginCall, RouterEvent,
};
use crate::types::{HopDescriptor, HopResult, QuoteError, QuoteResponse};

verus! {

/// Maximum hops allowed in a multi-hop route. Keeps gas costs bounded.
pub const MAX_HOPS: usize = 5;

/// The most decimal places that an exchange rate is given with.
pub const MAX_PRECISION: u32 = 18;

/// The largest slippage tolerance, in basis points.
pub const MAX_SLIPPAGE_BPS: u32 = 10_000;

/// Why the parameters of a quote are refused, if they are. Where several
/// reasons hold, the first one counts.
pub open spec fn parameter_refusal(
    amount_in: i128,
    slippage_bps: u32,
    precision: u32,
) -> Option<QuoteError> {
    if amount_in <= 0 {
        Some(QuoteError::InvalidAmount)
    } else if precision == 0 || precision > 18 {
        Some(QuoteError::InvalidPrecision)
    } else if slippage_bps > 10_000 {
        Some(QuoteError::InvalidSlippage)
    } else {
        None
    }
}

/// Why a route of `hop_count` hops is refused, if it is.
pub open spec fn route_refusal(
    hop_count: nat,
    amount_in: i128,
    slippage_bps: u32,
    precision: u32,
) -> Option<QuoteError> {
    if hop_count == 0 {
        Some(QuoteError::EmptyRoute)
    } else if hop_count > 5 {
        Some(QuoteError::RouteTooLong)
    } else {
        parameter_refusal(amount_in, slippage_bps, precision)
    }
}

/// The amount that goes into hop `i`, or, behind the last hop, that comes out
/// of the route: what the hop before answered, and `amount_in` at the start.
pub open spec fn amount_into(amount_in: i128, replies: Seq<Option<i128>>, i: int) -> i128 {
    if i <= 0 {
        amount_in
    } else {
        replies[i - 1]->0
    }
}

/// The fee of hop `i`, on the amount that goes into it.
pub open spec fn hop_fee(
    hops: Seq<HopDescriptor>,
    amount_in: i128,
    replies: Seq<Option<i128>>,
    i: int,
) -> int {
    fee_on(amount_into(amount_in, replies, i) as int, hops[i].fee_bps as int)
}

/// The fees of the first `count` hops together.
pub open spec fn fees_through(
    hops: Seq<HopDescriptor>,
    amount_in: i128,
    replies: Seq<Option<i128>>,
    count: nat,
) -> int
    decreases count,
{
    if count == 0 {
        0
    } else {
        fees_through(hops, amount_in, replies, (count - 1) as nat) + hop_fee(
            hops,
            amount_in,
            replies,
            count - 1,
        )
    }
}

/// Whether the fees can be held as token amounts when hop `i` is added to them.
pub open spec fn hop_fits(
    hops: Seq<HopDescriptor>,
    amount_in: i128,
    replies: Seq<Option<i128>>,
    i: int,
) -> bool {
    &&& fits_i128(amount_into(amount_in, replies, i) * hops[i].fee_bps)
    &&& fits_i128(fees_through(hops, amount_in, replies, (i + 1) as nat))
}

/// Whether the figures of a quote can be computed in token amounts.
pub open spec fn summary_fits(
    amount_in: i128,
    amount_out: i128,
    slippage_bps: u32,
    precision: u32,
) -> bool {
    &&& fits_i128(amount_out * (10_000 - slippage_bps))
    &&& fits_i128(amount_out * pow(10, precision as nat))
    &&& fits_i128(amount_out - amount_in)
    &&& fits_i128((amount_out - amount_in) * 10_000)
}

/// Where a route stands once its plugins have given some answers.
pub enum Stage {
    /// The next plugin is to be called.
    AwaitsReply,
    /// The last plugin called did not answer with an amount.
    Failed,
    /// The route cannot be carried on: an amount left the range of `i128`, or
    /// the next plugin is no contract.
    Aborted,
    /// Every plugin answered, and the figures of the quote can be given.
    Complete,
}

/// Where a route stands after the first `count` answers, when it awaited each
/// of them.
pub open spec fn stage(
    hops: Seq<HopDescriptor>,
    amount_in: i128,
    slippage_bps: u32,
    precision: u32,
    replies: Seq<Option<i128>>,
    count: int,
) -> Stage {
    if count > 0 && replies[count - 1] is None {
        Stage::Failed
    } else if count > 0 && !hop_fits(hops, amount_in, replies, count - 1) {
        Stage::Aborted
    } else if count < hops.len() {
        if names_contract(hops[count].plugin) {
            Stage::AwaitsReply
        } else {
            Stage::Aborted
        }
    } else if summary_fits(
        amount_in,
        amount_into(amount_in, replies, count),
        slippage_bps,
        precision,
    ) {
        Stage::Complete
    } else {
        Stage::Aborted
    }
}

/// The breakdown of hop `i`.
pub open spec fn is_hop_result(
    result: HopResult,
    hops: Seq<HopDescriptor>,
    amount_in: i128,
    replies: Seq<Option<i128>>,
    i: int,
) -> bool {
    &&& result.token_in == hops[i].token_in
    &&& result.token_out == hops[i].token_out
    &&& result.amount_in == amount_into(amount_in, replies, i)
    &&& result.amount_out == amount_into(amount_in, replies, i + 1)
    &&& result.fee_amount == hop_fee(hops, amount_in, replies, i)
}

/// Whether `figures` are those of an exchange of `amount_in` for `amount_out`.
pub open spec fn has_figures(
    figures: QuoteResponse,
    amount_in: i128,
    amount_out: i128,
    slippage_bps: u32,
    precision: u32,
) -> bool {
    &&& figures.amount_out == amount_out
    &&& figures.min_amount_out == min_out_after(amount_out as int, slippage_bps as int)
    &&& figures.exchange_rate == rate_of(amount_in as int, amount_out as int, precision as nat)
    &&& figures.precision == precision
    &&& figures.price_impact_bps == clamp_i32(impact_of(amount_in as int, amount_out as int))
}

/// Whether `response` is the quote of a route whose plugins gave `replies`.
pub open spec fn is_quote(
    response: QuoteResponse,
    hops: Seq<HopDescriptor>,
    amount_in: i128,
    slippage_bps: u32,
    precision: u32,
    replies: Seq<Option<i128>>,
) -> bool {
    &&& has_figures(
        response,
        amount_in,
        amount_into(amount_in, replies, hops.len() as int),
        slippage_bps,
        precision,
    )
    &&& response.total_fee_amount == fees_through(hops, amount_in, replies, hops.len())
    &&& response.hops@.len() == hops.len()
    &&& forall|i: int|
        0 <= i < hops.len() ==> is_hop_result(
            #[trigger] response.hops@[i],
            hops,
            amount_in,
            replies,
            i,
        )
}

/// The calls of a route's plugins that drew `replies`: hop by hop, each plugin
/// is asked for a quote on what the plugin before it answered.
pub open spec fn route_calls(
    hops: Seq<HopDescriptor>,
    amount_in: i128,
    replies: Seq<Option<i128>>,
) -> Seq<PluginCall> {
    Seq::new(
        replies.len(),
        |i: int|
            PluginCall {
                plugin: hops[i].plugin,
                function: "get_quote"@,
                token_in: hops[i].token_in,
                token_out: hops[i].token_out,
                amount_in: amount_into(amount_in, replies, i),
                reply: replies[i],
            },
    )
}

/// What the calls that were made after `before` drew.
pub open spec fn replies_since(before: Seq<PluginCall>, after: Seq<PluginCall>) -> Seq<
    Option<i128>,
> {
    after.skip(before.len() as int).map_values(|call: PluginCall| call.reply)
}

/// Whether `outcome` is what comes of quoting a route on a ledger that is
/// reached through `env`, which becomes `after`.
///
/// Plugins are called in order for as long as the route awaits a reply, and
/// the outcome follows from their answers: the quote, announced by one event,
/// where the route is complete; `QuoteFailed` where a plugin failed; nothing
/// (`None`) where the route cannot be carried on.
pub open spec fn quotes_route(
    hops: Seq<HopDescriptor>,
    amount_in: i128,
    slippage_bps: u32,
    precision: u32,
    env: Env,
    after: Env,
    outcome: Option<Result<QuoteResponse, QuoteError>>,
) -> bool {
    let replies = replies_since(plugin_calls(env), plugin_calls(after));
    &&& replies.len() <= hops.len()
    &&& plugin_calls(after) == plugin_calls(env) + route_calls(hops, amount_in, replies)
    &&& forall|i: int|
        0 <= i < replies.len() ==> #[trigger] stage(
            hops,
            amount_in,
            slippage_bps,
            precision,
            replies,
            i,
        ) is AwaitsReply
    &&& match stage(hops, amount_in, slippage_bps, precision, replies, replies.len() as int) {
        Stage::AwaitsReply => false,
        Stage::Failed => {
            &&& outcome == Some(Err::<QuoteResponse, QuoteError>(QuoteError::QuoteFailed))
            &&& published(after) == published(env)
        },
        Stage::Aborted => {
            &&& outcome is None
            &&& published(after) == published(env)
        },
        Stage::Complete => {
            &&& outcome matches Some(Ok(response))
            &&& is_quote(response, hops, amount_in, slippage_bps, precision, replies)
            &&& published(after) == published(env).push(
                (RouterEvent::QuoteGenerated {
                    amount_in,
                    amount_out: response.amount_out,
                    exchange_rate: response.exchange_rate,
                }).under_topic(),
            )
        },
    }
}

/// A further answer does not change the fees of the hops before it.
proof fn lemma_fees_of_prefix(
    hops: Seq<HopDescriptor>,
    amount_in: i128,
    replies: Seq<Option<i128>>,
    next: Option<i128>,
    count: nat,
)
    requires
        count <= replies.len() + 1,
    ensures
        fees_through(hops, amount_in, replies.push(next), count) == fees_through(
            hops,
            amount_in,
            replies,
            count,
        ),
    decreases count,
{
    if count > 0 {
        lemma_fees_of_prefix(hops, amount_in, replies, next, (count - 1) as nat);
    }
}

/// A further answer does not change where the route stood before it.
proof fn lemma_stage_of_prefix(
    hops: Seq<HopDescriptor>,
    amount_in: i128,
    slippage_bps: u32,
    precision: u32,
    replies: Seq<Option<i128>>,
    next: Option<i128>,
    count: int,
)
    requires
        0 <= count <= replies.len(),
    ensures
        stage(hops, amount_in, slippage_bps, precision, replies.push(next), count) == stage(
            hops,
            amount_in,
            slippage_bps,
            precision,
            replies,
            count,
        ),
{
    lemma_fees_of_prefix(hops, amount_in, replies, next, count as nat);
}

/// What a route has come to after some hops.
pub struct HopTally {
    /// The amount that the last hop paid out, which goes into the next one.
    pub amount: i128,
    /// The fees of the hops so far.
    pub total_fee: i128,
    /// The breakdown of the hops so far.
    pub results: Vec<HopResult>,
}

impl HopTally {
    /// The tally before the first hop.
    pub fn start(amount_in: i128) -> (tally: HopTally)
        ensures
            tally.amount == amount_in,
            tally.total_fee == 0,
            tally.results@ == Seq::<HopResult>::empty(),
    {
        HopTally { amount: amount_in, total_fee: 0, results: Vec::new() }
    }

    /// Adds a hop whose plugin answered with `amount_out`. Gives `false`, and
    /// leaves the tally as it is, when a fee leaves the range of `i128`.
    pub fn record(&mut self, hop: &HopDescriptor, amount_out: i128) -> (fits: bool)
        ensures
            fits <==> fits_i128(old(self).amount * hop.fee_bps) && fits_i128(
                old(self).total_fee + fee_on(old(self).amount as int, hop.fee_bps as int),
            ),
            !fits ==> *final(self) == *old(self),
            fits ==> {
                let fee = fee_on(old(self).amount as int, hop.fee_bps as int);
                &&& final(self).amount == amount_out
                &&& final(self).total_fee == old(self).total_fee + fee
                &&& final(self).results@ == old(self).results@.push(
                    HopResult {
                        token_in: hop.token_in,
                        token_out: hop.token_out,
                        amount_in: old(self).amount,
                        amount_out,
                        fee_amount: fee as i128,
                    },
                )
                &&& fits_i128(fee)
            },
    {
        let fee = match fee_amount(self.amount, hop.fee_bps) {
            Some(fee) => fee,
            None => {
                return false;
            },
        };
        let total_fee = match self.total_fee.checked_add(fee) {
            Some(total_fee) => total_fee,
            None => {
                return false;
            },
        };
        self.results.push(
            HopResult {
                token_in: hop.token_in.clone(),
                token_out: hop.token_out.clone(),
                amount_in: self.amount,
                amount_out,
                fee_amount: fee,
            },
        );
        self.total_fee = total_fee;
        self.amount = amount_out;
        true
    }

    /// The quote for a route that took `amount_in` and came to this tally.
    /// Gives `None` when a figure leaves the range of `i128`.
    pub fn summarize(
        self,
        amount_in: i128,
        slippage_bps: u32,
        precision: u32,
    ) -> (response: Option<QuoteResponse>)
        requires
            amount_in > 0,
            precision <= 38,
        ensures
            response is Some <==> summary_fits(amount_in, self.amount, slippage_bps, precision),
            response matches Some(quote) ==> {
                &&& has_figures(quote, amount_in, self.amount, slippage_bps, precision)
                &&& quote.total_fee_amount == self.total_fee
                &&& quote.hops@ == self.results@
            },
    {
        let least = match min_amount_out(self.amount, slippage_bps) {
            Some(least) => least,
            None => {
                return None;
            },
        };
        let scale: i128 = RouterQuote::pow10(precision);
        let rate = match exchange_rate(amount_in, self.amount, scale) {
            Some(rate) => rate,
            None => {
                return None;
            },
        };
        let impact = match price_impact_bps(amount_in, self.amount) {
            Some(impact) => impact,
            None => {
                return None;
            },
        };
        Some(
            QuoteResponse {
                amount_out: self.amount,
                total_fee_amount: self.total_fee,
                min_amount_out: least,
                exchange_rate: rate,
                precision,
                price_impact_bps: impact,
                hops: self.results,
            },
        )
    }
}

/// The quoting contract.
pub struct RouterQuote;

impl RouterQuote {
    /// Get a single-hop quote from a liquidity plugin.
    ///
    /// Calls `get_quote(token_in, token_out, amount_in) -> i128` on `plugin`
    /// and returns a full [`QuoteResponse`] with exchange rate, slippage-adjusted
    /// minimum output, and fee breakdown.
    ///
    /// `None` stands for a quote that cannot be carried on: an amount leaves
    /// the range of `i128`, or `plugin` is no contract.
    ///
    /// # Arguments
    /// * `env` - The Soroban environment.
    /// * `plugin` - Liquidity plugin contract address.
    /// * `token_in` - Token being sold.
    /// * `token_out` - Token being bought.
    /// * `amount_in` - Amount of token_in (must be > 0).
    /// * `fee_bps` - Protocol fee in basis points.
    /// * `slippage_bps` - Slippage tolerance in basis points (0-10000).
    /// * `precision` - Decimal places for exchange rate (1-18).
    ///
    /// # Errors
    /// * [`QuoteError::InvalidAmount`] - `amount_in` <= 0.
    /// * [`QuoteError::InvalidPrecision`] - `precision` is 0 or > 18.
    /// * [`QuoteError::InvalidSlippage`] - `slippage_bps` > 10000.
    /// * [`QuoteError::QuoteFailed`] - plugin call failed.
    pub fn get_quote(
        env: &mut Env,
        plugin: Address,
        token_in: Address,
        token_out: Address,
        amount_in: i128,
        fee_bps: u32,
        slippage_bps: u32,
        precision: u32,
    ) -> (outcome: Option<Result<QuoteResponse, QuoteError>>)
        ensures
            match parameter_refusal(amount_in, slippage_bps, precision) {
                Some(error) => outcome == Some(Err::<QuoteResponse, QuoteError>(error))
                    && *final(env) == *old(env),
                None => quotes_route(
                    seq![HopDescriptor { plugin, token_in, token_out, fee_bps }],
                    amount_in,
                    slippage_bps,
                    precision,
                    *old(env),
                    *final(env),
                    outcome,
                ),
            },
    {
        if amount_in <= 0 {
            return Some(Err(QuoteError::InvalidAmount));
        }
        if precision == 0 || precision > MAX_PRECISION {
            return Some(Err(QuoteError::InvalidPrecision));
        }
        if slippage_bps > MAX_SLIPPAGE_BPS {
            return Some(Err(QuoteError::InvalidSlippage));
        }
        let mut hops: Vec<HopDescriptor> = Vec::new();
        hops.push(HopDescriptor { plugin, token_in, token_out, fee_bps });
        assert(hops@ =~= seq![HopDescriptor { plugin, token_in, token_out, fee_bps }]);
        Self::execute_hops(env, &hops, amount_in, slippage_bps, precision)
    }

    /// Get a multi-hop quote chaining N liquidity plugins.
    ///
    /// Executes hops in order: the `amount_out` of hop N becomes the
    /// `amount_in` of hop N+1. The final `QuoteResponse` reflects the
    /// end-to-end exchange rate and total fees across all hops.
    ///
    /// `None` stands for a quote that cannot be carried on: an amount leaves
    /// the range of `i128`, or a plugin that is to be called is no contract.
    ///
    /// # Arguments
    /// * `env` - The Soroban environment.
    /// * `hops` - Ordered list of [`HopDescriptor`]s (1-5 hops).
    /// * `amount_in` - Initial input amount (must be > 0).
    /// * `slippage_bps` - Slippage tolerance applied to the final output (0-10000).
    /// * `precision` - Decimal places for the end-to-end exchange rate (1-18).
    ///
    /// # Errors
    /// * [`QuoteError::EmptyRoute`] - `hops` is empty.
    /// * [`QuoteError::RouteTooLong`] - `hops` has more than [`MAX_HOPS`] entries.
    /// * [`QuoteError::InvalidAmount`] - `amount_in` <= 0.
    /// * [`QuoteError::InvalidPrecision`] - `precision` is 0 or > 18.
    /// * [`QuoteError::InvalidSlippage`] - `slippage_bps` > 10000.
    /// * [`QuoteError::QuoteFailed`] - any plugin call failed.
    pub fn get_multihop_quote(
        env: &mut Env,
        hops: Vec<HopDescriptor>,
        amount_in: i128,
        slippage_bps: u32,
        precision: u32,
    ) -> (outcome: Option<Result<QuoteResponse, QuoteError>>)
        ensures
            match route_refusal(hops@.len(), amount_in, slippage_bps, precision) {
                Some(error) => outcome == Some(Err::<QuoteResponse, QuoteError>(error))
                    && *final(env) == *old(env),
                None => quotes_route(
                    hops@,
                    amount_in,
                    slippage_bps,
                    precision,
                    *old(env),
                    *final(env),
                    outcome,
                ),
            },
    {
        if hops.is_empty() {
            return Some(Err(QuoteError::EmptyRoute));
        }
        if hops.len() > MAX_HOPS {
            return Some(Err(QuoteError::RouteTooLong));
        }
        if amount_in <= 0 {
            return Some(Err(QuoteError::InvalidAmount));
        }
        if precision == 0 || precision > MAX_PRECISION {
            return Some(Err(QuoteError::InvalidPrecision));
        }
        if slippage_bps > MAX_SLIPPAGE_BPS {
            return Some(Err(QuoteError::InvalidSlippage));
        }
        Self::execute_hops(env, &hops, amount_in, slippage_bps, precision)
    }

    /// Execute a chain of hops and aggregate results.
    #[verifier::rlimit(40)]
    fn execute_hops(
        env: &mut Env,
        hops: &Vec<HopDescriptor>,
        initial_amount_in: i128,
        slippage_bps: u32,
        precision: u32,
    ) -> (outcome: Option<Result<QuoteResponse, QuoteError>>)
        requires
            initial_amount_in > 0,
            precision <= 38,
        ensures
            quotes_route(
                hops@,
                initial_amount_in,
                slippage_bps,
                precision,
                *old(env),
                *final(env),
                outcome,
            ),
    {
        let ghost before = *env;
        let ghost mut replies: Seq<Option<i128>> = Seq::empty();
        let mut tally = HopTally::start(initial_amount_in);
        let mut i: usize = 0;
        assert(plugin_calls(*env) =~= plugin_calls(before) + route_calls(
            hops@,
            initial_amount_in,
            replies,
        ));
        while i < hops.len()
            invariant
                i <= hops.len(),
                initial_amount_in > 0,
                precision <= 38,
                before == *old(env),
                replies.len() == i,
                plugin_calls(*env) == plugin_calls(before) + route_calls(
                    hops@,
                    initial_amount_in,
                    replies,
                ),
                published(*env) == published(before),
                forall|j: int|
                    0 <= j < i ==> #[trigger] stage(
                        hops@,
                        initial_amount_in,
                        slippage_bps,
                        precision,
                        replies,
                        j,
                    ) is AwaitsReply,
                i > 0 ==> replies[i - 1] is Some,
                i > 0 ==> hop_fits(hops@, initial_amount_in, replies, i - 1),
                tally.amount == amount_into(initial_amount_in, replies, i as int),
                tally.total_fee == fees_through(hops@, initial_amount_in, replies, i as nat),
                tally.results@.len() == i,
                forall|j: int|
                    0 <= j < i ==> is_hop_result(
                        #[trigger] tally.results@[j],
                        hops@,
                        initial_amount_in,
                        replies,
                        j,
                    ),
            decreases hops.len() - i,
        {
            let hop = &hops[i];
            if !is_contract(&hop.plugin) {
                assert(replies_since(plugin_calls(before), plugin_calls(*env)) =~= replies);
                return None;
            }
            let ghost earlier = replies;
            let reply = Self::call_plugin(
                env,
                &hop.plugin,
                &hop.token_in,
                &hop.token_out,
                tally.amount,
            );
            proof {
                replies = replies.push(reply.ok());
                assert(plugin_calls(*env) =~= plugin_calls(before) + route_calls(
                    hops@,
                    initial_amount_in,
                    replies,
                ));
                assert(replies_since(plugin_calls(before), plugin_calls(*env)) =~= replies);
                assert forall|j: int| 0 <= j <= i implies #[trigger] stage(
                    hops@,
                    initial_amount_in,
                    slippage_bps,
                    precision,
                    replies,
                    j,
                ) is AwaitsReply by {
                    lemma_stage_of_prefix(
                        hops@,
                        initial_amount_in,
                        slippage_bps,
                        precision,
                        earlier,
                        reply.ok(),
                        j,
                    );
                }
                lemma_fees_of_prefix(hops@, initial_amount_in, earlier, reply.ok(), i as nat);
            }
            let gross_amount_out = match reply {
                Ok(amount_out) => amount_out,
                Err(error) => {
                    return Some(Err(error));
                },
            };
            if !tally.record(hop, gross_amount_out) {
                return None;
            }
            i = i + 1;
        }
        assert(replies_since(plugin_calls(before), plugin_calls(*env)) =~= replies);
        let final_amount_out = tally.amount;
        let response = match tally.summarize(initial_amount_in, slippage_bps, precision) {
            Some(response) => response,
            None => {
                return None;
            },
        };
        let announcement = RouterEvent::QuoteGenerated {
            amount_in: initial_amount_in,
            amount_out: final_amount_out,
            exchange_rate: response.exchange_rate,
        };
        announcement.publish(env);
        Some(Ok(response))
    }

    /// Call a liquidity plugin's `get_quote` function.
    fn call_plugin(
        env: &mut Env,
        plugin: &Address,
        token_in: &Address,
        token_out: &Address,
        amount_in: i128,
    ) -> (reply: Result<i128, QuoteError>)
        requires
            names_contract(*plugin),
        ensures
            reply matches Err(error) ==> error == QuoteError::QuoteFailed,
            plugin_calls(*final(env)) == plugin_calls(*old(env)).push(
                (PluginCall {
                    plugin: *plugin,
                    function: "get_quote"@,
                    token_in: *token_in,
                    token_out: *token_out,
                    amount_in,
                    reply: reply.ok(),
                }),
            ),
            published(*final(env)) == published(*old(env)),
    {
        proof {
            reveal_strlit("get_quote");
        }
        match ask_plugin(env, plugin, "get_quote", token_in, token_out, amount_in) {
            Some(amount_out) => Ok(amount_out),
            None => Err(QuoteError::QuoteFailed),
        }
    }

    /// Returns 10^exp as i128. 10^38 is the largest power of ten that fits.
    pub fn pow10(exp: u32) -> (power: i128)
        requires
            exp <= 38,
        ensures
            power == pow(10, exp as nat),
    {
        let mut result: i128 = 1;
        let mut i: u32 = 0;
        reveal(pow);
        while i < exp
            invariant
                i <= exp <= 38,
                result == pow(10, i as nat),
            decreases exp - i,
        {
            proof {
                lemma_pow10_fits((i + 1) as nat);
                reveal(pow);
            }
            result = result * 10;
            i = i + 1;
        }
        result
    }
}

} // verus!
