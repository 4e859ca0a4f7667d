//! What holds between the plugin calls of a route, as the ledger saw them, and
//! what comes of the route; and what the contract's entry points promise of the
//! ledger that they are called on.

use soroban_sdk::{Address, Env, Error, InvokeError};
use vstd::arithmetic::power::pow;
use vstd::prelude::*;

use crate::fees::estimate_fits;
use crate::laws::{
    fee_sum, is_rounded, law_fee_is_rounded, law_figures_follow_from_the_exchange,
    law_parts_of_an_estimate, law_quote_takes_every_reply, law_total_fee_is_the_sum,
};
use crate::ledger::{
    address_text, amount_in_reply, plugin_calls, published, PluginCall, PublishedEvent, RouterEvent,
};
use crate::quote::{
    fees_through, hop_fee, hop_fits, is_hop_result, is_quote, parameter_refusal, quotes_route,
    replies_since, route_calls, route_refusal, stage, RouterQuote,
};
use crate::types::{
    FeeEstimateRequest, FeeEstimateResponse, HopDescriptor, QuoteError, QuoteResponse,
};

verus! {

/// The plugin calls that were made between `env` and `after`.
pub open spec fn calls_between(env: Env, after: Env) -> Seq<PluginCall> {
    plugin_calls(after).skip(plugin_calls(env).len() as int)
}

/// Whether a call asks the plugin of `hop` for a quote on `amount`.
pub open spec fn asks_for(call: PluginCall, hop: HopDescriptor, amount: i128) -> bool {
    &&& call.plugin == hop.plugin
    &&& call.function == "get_quote"@
    &&& call.token_in == hop.token_in
    &&& call.token_out == hop.token_out
    &&& call.amount_in == amount
}

/// Whether calls are those of a route, or of its first hops: the plugin of the
/// first hop is asked about `amount_in`, and each further one about the amount
/// that the one before it answered with.
pub open spec fn is_chain(
    made: Seq<PluginCall>,
    hops: Seq<HopDescriptor>,
    amount_in: i128,
) -> bool {
    &&& made.len() <= hops.len()
    &&& made.len() > 0 ==> asks_for(made[0], hops[0], amount_in)
    &&& forall|i: int|
        1 <= i < made.len() ==> made[i - 1].reply is Some && asks_for(
            #[trigger] made[i],
            hops[i],
            made[i - 1].reply->0,
        )
}

/// Whether a response gives, hop by hop, what plugins were asked and answered,
/// and pays out what the last of them answered.
pub open spec fn reports(response: QuoteResponse, made: Seq<PluginCall>) -> bool {
    &&& response.hops@.len() == made.len()
    &&& forall|i: int|
        0 <= i < made.len() ==> {
            &&& made[i].reply == Some((#[trigger] response.hops@[i]).amount_out)
            &&& made[i].amount_in == response.hops@[i].amount_in
            &&& made[i].token_in == response.hops@[i].token_in
            &&& made[i].token_out == response.hops@[i].token_out
        }
    &&& made.len() > 0 ==> made.last().reply == Some(response.amount_out)
}

/// A plugin's answer is on record with an amount if and only if the plugin
/// handed one back, and then it is that very amount.
pub proof fn law_answers_are_kept_as_they_are(
    reply: Result<Result<i128, Error>, Result<Error, InvokeError>>,
    amount: i128,
)
    ensures
        amount_in_reply(reply) == Some(amount) <==> (reply is Ok && reply->Ok_0 is Ok
            && reply->Ok_0->Ok_0 == amount),
{
}

/// The calls of a route, read off the contract of a quote.
proof fn lemma_calls_of_route(
    hops: Seq<HopDescriptor>,
    amount_in: i128,
    slippage_bps: u32,
    precision: u32,
    env: Env,
    after: Env,
    outcome: Option<Result<QuoteResponse, QuoteError>>,
)
    requires
        quotes_route(hops, amount_in, slippage_bps, precision, env, after, outcome),
    ensures
        ({
            let made = calls_between(env, after);
            let replies = replies_since(plugin_calls(env), plugin_calls(after));
            &&& plugin_calls(after) == plugin_calls(env) + made
            &&& made.len() == replies.len() <= hops.len()
            &&& made == route_calls(hops, amount_in, replies)
            &&& forall|i: int| 0 <= i < made.len() ==> (#[trigger] made[i]).reply == replies[i]
            &&& forall|i: int| 0 <= i < made.len() - 1 ==> (#[trigger] made[i]).reply is Some
        }),
{
    let made = calls_between(env, after);
    let replies = replies_since(plugin_calls(env), plugin_calls(after));
    assert(made =~= route_calls(hops, amount_in, replies));
    assert(plugin_calls(after) =~= plugin_calls(env) + made);
    assert forall|i: int| 0 <= i < made.len() - 1 implies (#[trigger] made[i]).reply is Some by {
        assert(stage(hops, amount_in, slippage_bps, precision, replies, i + 1) is AwaitsReply);
    }
}

/// Whatever comes of a route, its plugins are asked one after the other: the
/// first about the amount that goes into the route, and each further one about
/// the very amount that the one before it answered with. What was asked before
/// stays on record.
#[verifier::rlimit(50)]
pub proof fn law_each_plugin_is_asked_about_the_answer_before(
    hops: Seq<HopDescriptor>,
    amount_in: i128,
    slippage_bps: u32,
    precision: u32,
    env: Env,
    after: Env,
    outcome: Option<Result<QuoteResponse, QuoteError>>,
)
    requires
        quotes_route(hops, amount_in, slippage_bps, precision, env, after, outcome),
    ensures
        ({
            let made = calls_between(env, after);
            &&& plugin_calls(after) == plugin_calls(env) + made
            &&& is_chain(made, hops, amount_in)
        }),
{
    lemma_calls_of_route(hops, amount_in, slippage_bps, precision, env, after, outcome);
    let made = calls_between(env, after);
    assert forall|i: int| 1 <= i < made.len() implies made[i - 1].reply is Some && asks_for(
        #[trigger] made[i],
        hops[i],
        made[i - 1].reply->0,
    ) by {
        assert(made[i - 1].reply is Some);
    }
}

/// The quote for some answers reports the calls that drew them.
proof fn lemma_quote_reports_calls(
    hops: Seq<HopDescriptor>,
    amount_in: i128,
    slippage_bps: u32,
    precision: u32,
    replies: Seq<Option<i128>>,
    response: QuoteResponse,
)
    requires
        is_quote(response, hops, amount_in, slippage_bps, precision, replies),
        hops.len() == replies.len(),
        forall|i: int| 0 <= i < replies.len() ==> (#[trigger] replies[i]) is Some,
    ensures
        reports(response, route_calls(hops, amount_in, replies)),
        hops.len() == 0 ==> response.amount_out == amount_in,
{
    let made = route_calls(hops, amount_in, replies);
    assert forall|i: int| 0 <= i < made.len() implies {
        &&& made[i].reply == Some((#[trigger] response.hops@[i]).amount_out)
        &&& made[i].amount_in == response.hops@[i].amount_in
        &&& made[i].token_in == response.hops@[i].token_in
        &&& made[i].token_out == response.hops@[i].token_out
    } by {
        assert(is_hop_result(response.hops@[i], hops, amount_in, replies, i));
        assert(replies[i] is Some);
    }
    if hops.len() > 0 {
        assert(replies[hops.len() - 1] is Some);
    }
}

/// A quote reports what the plugins were asked and what they answered, and
/// nothing else: each hop's output is the amount that its plugin answered with,
/// each hop's input the amount that it was asked about, and the quoted output
/// the answer of the last plugin.
pub proof fn law_quote_reports_the_answers(
    hops: Seq<HopDescriptor>,
    amount_in: i128,
    slippage_bps: u32,
    precision: u32,
    env: Env,
    after: Env,
    response: QuoteResponse,
)
    requires
        quotes_route(hops, amount_in, slippage_bps, precision, env, after, Some(Ok(response))),
    ensures
        ({
            let made = calls_between(env, after);
            &&& made.len() == hops.len()
            &&& reports(response, made)
            &&& hops.len() == 0 ==> response.amount_out == amount_in
        }),
{
    let outcome = Some(Ok::<QuoteResponse, QuoteError>(response));
    let replies = replies_since(plugin_calls(env), plugin_calls(after));
    lemma_calls_of_route(hops, amount_in, slippage_bps, precision, env, after, outcome);
    law_quote_takes_every_reply(hops, amount_in, slippage_bps, precision, env, after, outcome);
    lemma_quote_reports_calls(hops, amount_in, slippage_bps, precision, replies, response);
}

/// The figures of a quote are those of exchanging the amount that went in for
/// the amount that came out: the tolerance, the rate and the price impact are
/// quotients of these two, rounded toward zero, the impact no further out than
/// an `i32` goes. The fee of each hop is its rate on what went into the hop, and
/// the total is the sum of these fees.
pub proof fn law_quote_figures(
    hops: Seq<HopDescriptor>,
    amount_in: i128,
    slippage_bps: u32,
    precision: u32,
    env: Env,
    after: Env,
    response: QuoteResponse,
)
    requires
        amount_in > 0,
        quotes_route(hops, amount_in, slippage_bps, precision, env, after, Some(Ok(response))),
    ensures
        response.precision == precision,
        is_rounded(
            response.min_amount_out as int,
            response.amount_out * (10_000 - slippage_bps),
            10_000,
        ),
        is_rounded(
            response.exchange_rate as int,
            response.amount_out * pow(10, precision as nat),
            amount_in as int,
        ),
        ({
            let gain = (response.amount_out - amount_in) * 10_000;
            let impact = response.price_impact_bps as int;
            ||| is_rounded(impact, gain, amount_in as int)
            ||| impact == i32::MAX && i32::MAX * amount_in <= gain
            ||| impact == i32::MIN && gain <= i32::MIN * amount_in
        }),
        response.hops@.len() == hops.len(),
        forall|i: int|
            0 <= i < hops.len() ==> is_rounded(
                (#[trigger] response.hops@[i]).fee_amount as int,
                response.hops@[i].amount_in * hops[i].fee_bps,
                10_000,
            ),
        response.total_fee_amount == fee_sum(response.hops@),
{
    let replies = replies_since(plugin_calls(env), plugin_calls(after));
    law_figures_follow_from_the_exchange(
        response,
        amount_in,
        response.amount_out,
        slippage_bps,
        precision,
    );
    law_total_fee_is_the_sum(response, hops, amount_in, slippage_bps, precision, replies);
    assert forall|i: int| 0 <= i < hops.len() implies is_rounded(
        (#[trigger] response.hops@[i]).fee_amount as int,
        response.hops@[i].amount_in * hops[i].fee_bps,
        10_000,
    ) by {
        assert(is_hop_result(response.hops@[i], hops, amount_in, replies, i));
        law_fee_is_rounded(response.hops@[i].amount_in as int, hops[i].fee_bps as int);
    }
}

/// A quote is announced under `quote_generated` with what went in, what came out
/// and the rate. A route that comes to anything else announces nothing.
pub proof fn law_quotes_alone_are_announced(
    hops: Seq<HopDescriptor>,
    amount_in: i128,
    slippage_bps: u32,
    precision: u32,
    env: Env,
    after: Env,
    outcome: Option<Result<QuoteResponse, QuoteError>>,
)
    requires
        quotes_route(hops, amount_in, slippage_bps, precision, env, after, outcome),
    ensures
        match outcome {
            Some(Ok(response)) => published(after) == published(env).push(
                PublishedEvent {
                    topic: "quote_generated"@,
                    event: RouterEvent::QuoteGenerated {
                        amount_in,
                        amount_out: response.amount_out,
                        exchange_rate: response.exchange_rate,
                    },
                },
            ),
            _ => published(after) == published(env),
        },
{
}

/// A quotient rounded toward zero.
pub open spec fn rounded(n: int, d: int) -> int {
    if n >= 0 {
        n / d
    } else {
        -(-n / d)
    }
}

/// The fees of the hops whose plugins were asked: for each, its rate on the
/// amount that its plugin was asked about.
pub open spec fn fees_of_calls(hops: Seq<HopDescriptor>, made: Seq<PluginCall>) -> int
    decreases made.len(),
{
    if made.len() == 0 {
        0
    } else {
        fees_of_calls(hops, made.drop_last()) + rounded(
            made.last().amount_in * hops[made.len() - 1].fee_bps,
            10_000,
        )
    }
}

/// Whether an `i128` holds `x`.
pub open spec fn in_range(x: int) -> bool {
    -0x8000_0000_0000_0000_0000_0000_0000_0000 <= x <= 0x7fff_ffff_ffff_ffff_ffff_ffff_ffff_ffff
}

/// Whether the fee of the last of some calls, before and after its division,
/// and the fees up to it can be held.
pub open spec fn fees_in_range(hops: Seq<HopDescriptor>, made: Seq<PluginCall>) -> bool {
    made.len() > 0 ==> {
        &&& in_range(made.last().amount_in * hops[made.len() - 1].fee_bps)
        &&& in_range(fees_of_calls(hops, made))
    }
}

proof fn lemma_fees_of_calls(
    hops: Seq<HopDescriptor>,
    amount_in: i128,
    replies: Seq<Option<i128>>,
    count: nat,
)
    requires
        count <= replies.len() <= hops.len(),
    ensures
        fees_through(hops, amount_in, replies, count) == fees_of_calls(
            hops,
            route_calls(hops, amount_in, replies).take(count as int),
        ),
        count > 0 ==> (hop_fits(hops, amount_in, replies, count - 1) <==> fees_in_range(
            hops,
            route_calls(hops, amount_in, replies).take(count as int),
        )),
    decreases count,
{
    let made = route_calls(hops, amount_in, replies);
    if count > 0 {
        lemma_fees_of_calls(hops, amount_in, replies, (count - 1) as nat);
        assert(made.take(count as int).drop_last() =~= made.take(count - 1));
        assert(made.take(count as int).last() == made[count - 1]);
        assert(hop_fee(hops, amount_in, replies, count - 1) == rounded(
            made[count - 1].amount_in * hops[count - 1].fee_bps,
            10_000,
        ));
    }
}

/// When a route stops, and at what.
///
/// It goes on behind a plugin only if that plugin answered with an amount and
/// the fees so far can be held, and asks only contracts. It fails if and only if
/// the last plugin asked did not answer with an amount. Where that one did, it
/// gives a quote if and only if the fees can be held, every plugin was asked,
/// and so can the products that the figures are taken from; and it stops short
/// of a plugin, with its fees held, only before an address that is no
/// contract's.
#[verifier::rlimit(50)]
pub proof fn law_when_a_route_stops(
    hops: Seq<HopDescriptor>,
    amount_in: i128,
    slippage_bps: u32,
    precision: u32,
    env: Env,
    after: Env,
    outcome: Option<Result<QuoteResponse, QuoteError>>,
)
    requires
        quotes_route(hops, amount_in, slippage_bps, precision, env, after, outcome),
    ensures
        ({
            let made = calls_between(env, after);
            let failed = made.len() > 0 && made.last().reply is None;
            let amount_out = if made.len() == 0 {
                amount_in
            } else {
                made.last().reply->0
            };
            &&& forall|i: int|
                0 <= i < made.len() ==> {
                    &&& address_text((#[trigger] made[i]).plugin).len() > 0
                    &&& address_text(made[i].plugin)[0] == 0x43
                    &&& i < made.len() - 1 ==> made[i].reply is Some && fees_in_range(
                        hops,
                        made.take(i + 1),
                    )
                }
            &&& failed <==> (outcome is Some && outcome->0 is Err)
            &&& failed ==> outcome == Some(
                Err::<QuoteResponse, QuoteError>(QuoteError::QuoteFailed),
            )
            &&& !failed ==> ((outcome is Some && outcome->0 is Ok) <==> {
                &&& fees_in_range(hops, made)
                &&& made.len() == hops.len()
                &&& in_range(amount_out * (10_000 - slippage_bps))
                &&& in_range(amount_out * pow(10, precision as nat))
                &&& in_range(amount_out - amount_in)
                &&& in_range((amount_out - amount_in) * 10_000)
            })
            &&& !failed && fees_in_range(hops, made) && made.len() < hops.len() ==> !(address_text(
                hops[made.len() as int].plugin,
            ).len() > 0 && address_text(hops[made.len() as int].plugin)[0] == 0x43)
        }),
{
    lemma_calls_of_route(hops, amount_in, slippage_bps, precision, env, after, outcome);
    let made = calls_between(env, after);
    let replies = replies_since(plugin_calls(env), plugin_calls(after));
    assert forall|i: int| 0 <= i < made.len() implies {
        &&& address_text((#[trigger] made[i]).plugin).len() > 0
        &&& address_text(made[i].plugin)[0] == 0x43
        &&& i < made.len() - 1 ==> made[i].reply is Some && fees_in_range(hops, made.take(i + 1))
    } by {
        assert(stage(hops, amount_in, slippage_bps, precision, replies, i) is AwaitsReply);
        if i < made.len() - 1 {
            assert(stage(hops, amount_in, slippage_bps, precision, replies, i + 1) is AwaitsReply);
            lemma_fees_of_calls(hops, amount_in, replies, (i + 1) as nat);
        }
    }
    if made.len() > 0 {
        lemma_fees_of_calls(hops, amount_in, replies, made.len());
        assert(made.take(made.len() as int) =~= made);
        assert(made.last().reply == replies[made.len() - 1]);
    }
}

/// What a caller of `get_multihop_quote` can hold against the ledger: a refused
/// route asks no plugin; an accepted one asks its plugins in a chain, and a
/// quote reports what they answered.
pub proof fn law_multihop_quotes(
    env: &mut Env,
    hops: Vec<HopDescriptor>,
    amount_in: i128,
    slippage_bps: u32,
    precision: u32,
    outcome: Option<Result<QuoteResponse, QuoteError>>,
)
    requires
        call_ensures(
            RouterQuote::get_multihop_quote,
            (env, hops, amount_in, slippage_bps, precision),
            outcome,
        ),
    ensures
        ({
            let made = calls_between(*old(env), *final(env));
            let accepted = 1 <= hops@.len() <= 5 && amount_in > 0 && 1 <= precision <= 18
                && slippage_bps <= 10_000;
            &&& !accepted ==> *final(env) == *old(env) && outcome is Some && outcome->0 is Err
                && outcome->0->Err_0 != QuoteError::QuoteFailed
            &&& accepted ==> plugin_calls(*final(env)) == plugin_calls(*old(env)) + made
                && is_chain(made, hops@, amount_in)
            &&& outcome is Some && outcome->0 is Ok ==> made.len() == hops@.len() && reports(
                outcome->0->Ok_0,
                made,
            )
        }),
{
    if route_refusal(hops@.len(), amount_in, slippage_bps, precision) is None {
        law_each_plugin_is_asked_about_the_answer_before(
            hops@,
            amount_in,
            slippage_bps,
            precision,
            *old(env),
            *final(env),
            outcome,
        );
        if outcome is Some && outcome->0 is Ok {
            law_quote_reports_the_answers(
                hops@,
                amount_in,
                slippage_bps,
                precision,
                *old(env),
                *final(env),
                outcome->0->Ok_0,
            );
        }
    }
}

/// What a caller of `get_quote` can hold against the ledger: a refused quote
/// asks nothing; an accepted one asks the plugin at most once, about the amount
/// and the two tokens, and the quote is the amount that it answered with.
pub proof fn law_single_quotes(
    env: &mut Env,
    plugin: Address,
    token_in: Address,
    token_out: Address,
    amount_in: i128,
    fee_bps: u32,
    slippage_bps: u32,
    precision: u32,
    outcome: Option<Result<QuoteResponse, QuoteError>>,
)
    requires
        call_ensures(
            RouterQuote::get_quote,
            (env, plugin, token_in, token_out, amount_in, fee_bps, slippage_bps, precision),
            outcome,
        ),
    ensures
        ({
            let made = calls_between(*old(env), *final(env));
            let hop = HopDescriptor { plugin, token_in, token_out, fee_bps };
            let accepted = amount_in > 0 && 1 <= precision <= 18 && slippage_bps <= 10_000;
            &&& !accepted ==> *final(env) == *old(env) && outcome is Some && outcome->0 is Err
                && outcome->0->Err_0 != QuoteError::QuoteFailed
            &&& accepted ==> plugin_calls(*final(env)) == plugin_calls(*old(env)) + made
                && made.len() <= 1
            &&& accepted && made.len() == 1 ==> asks_for(made[0], hop, amount_in)
            &&& outcome is Some && outcome->0 is Ok ==> {
                let response = outcome->0->Ok_0;
                &&& made.len() == 1
                &&& made[0].reply == Some(response.amount_out)
                &&& reports(response, made)
                &&& is_rounded(
                    response.total_fee_amount as int,
                    amount_in * fee_bps,
                    10_000,
                )
            }
        }),
{
    if parameter_refusal(amount_in, slippage_bps, precision) is None {
        let hops = seq![HopDescriptor { plugin, token_in, token_out, fee_bps }];
        law_each_plugin_is_asked_about_the_answer_before(
            hops,
            amount_in,
            slippage_bps,
            precision,
            *old(env),
            *final(env),
            outcome,
        );
        if outcome is Some && outcome->0 is Ok {
            let response = outcome->0->Ok_0;
            law_quote_reports_the_answers(
                hops,
                amount_in,
                slippage_bps,
                precision,
                *old(env),
                *final(env),
                response,
            );
            law_quote_figures(
                hops,
                amount_in,
                slippage_bps,
                precision,
                *old(env),
                *final(env),
                response,
            );
            reveal_with_fuel(fee_sum, 2);
            assert(fee_sum(response.hops@) == response.hops@[0].fee_amount);
        }
    }
}

/// What a caller of `estimate_fee` can hold against the ledger: an amount that
/// is not positive is refused and announces nothing; otherwise the total and
/// whether it meets surge pricing are announced, and no plugin is asked.
pub proof fn law_estimates(
    env: &mut Env,
    request: FeeEstimateRequest,
    outcome: Result<FeeEstimateResponse, QuoteError>,
)
    requires
        request.amount > 0 ==> estimate_fits(request),
        call_ensures(RouterQuote::estimate_fee, (env, request), outcome),
    ensures
        request.amount <= 0 ==> outcome == Err::<FeeEstimateResponse, QuoteError>(
            QuoteError::InvalidAmount,
        ) && *final(env) == *old(env),
        request.amount > 0 ==> {
            let product = request.amount * request.fee_bps;
            &&& outcome is Ok
            &&& outcome->Ok_0.protocol_fee * 10_000 <= product
            &&& product < (outcome->Ok_0.protocol_fee + 1) * 10_000
            &&& outcome->Ok_0.network_fee == if request.network_load_bps >= 8_000 {
                200int
            } else {
                100int
            }
            &&& outcome->Ok_0.total_fee == outcome->Ok_0.protocol_fee + outcome->Ok_0.network_fee
            &&& plugin_calls(*final(env)) == plugin_calls(*old(env))
            &&& published(*final(env)) == published(*old(env)).push(
                PublishedEvent {
                    topic: "fee_estimated"@,
                    event: RouterEvent::FeeEstimated {
                        total_fee: outcome->Ok_0.total_fee,
                        surge_pricing: request.network_load_bps >= 8_000,
                    },
                },
            )
        },
{
    if request.amount > 0 {
        law_parts_of_an_estimate(request);
    }
}

} // verus!
