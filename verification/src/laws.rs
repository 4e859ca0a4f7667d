//! What holds of quotes, fees and subscriptions as a whole.

use soroban_sdk::Env;
use vstd::arithmetic::div_mod::{
    lemma_div_is_ordered, lemma_div_multiples_vanish, lemma_fundamental_div_mod, lemma_mod_bound,
};
use vstd::arithmetic::power::{lemma_pow_positive, pow};
use vstd::prelude::*;

use crate::amounts::{
    clamp_i32, fee_on, fits_i128, impact_of, min_out_after, rate_of, trunc_div,
};
use crate::config::{ServerConfig, MAX_BODY_BYTES};
use crate::fees::{
    announcement_of, announcements_of, estimate_fits, estimate_of, estimates_of, is_estimable,
    protocol_fee_of,
};
use crate::ledger::{names_contract, plugin_calls, published, PublishedEvent, RouterEvent};
use crate::quote::{
    amount_into, fees_through, has_figures, hop_fee, hop_fits, is_hop_result, is_quote,
    parameter_refusal, quotes_route, replies_since, route_refusal, stage, summary_fits,
};
use crate::state::{all_subscribed, with_subscriber, without_subscriber};
use crate::types::{
    FeeEstimateRequest, FeeEstimateResponse, HopDescriptor, HopResult, QuoteError, QuoteResponse,
};

verus! {

/// Division by a positive number rounds toward zero: the remainder is smaller
/// than the divisor and has the sign of the dividend.
proof fn lemma_division_rounds_toward_zero(a: int, b: int)
    requires
        b > 0,
    ensures
        a >= 0 ==> 0 <= trunc_div(a, b) * b <= a < (trunc_div(a, b) + 1) * b,
        a <= 0 ==> (trunc_div(a, b) - 1) * b < a <= trunc_div(a, b) * b <= 0,
{
    let n = if a >= 0 { a } else { -a };
    let q = n / b;
    lemma_fundamental_div_mod(n, b);
    lemma_mod_bound(n, b);
    assert(0 <= q * b <= n < (q + 1) * b) by (nonlinear_arith)
        requires
            n == b * q + n % b,
            0 <= n % b < b,
            n >= 0,
            b > 0,
            q == n / b,
    ;
    assert((-q) * b == -(q * b)) by (nonlinear_arith);
    assert((-q - 1) * b == -((q + 1) * b)) by (nonlinear_arith);
    if a == 0 {
        assert(q == 0) by (nonlinear_arith)
            requires
                q == 0int / b,
                b > 0,
        ;
        assert((0int - 1) * b == -b) by (nonlinear_arith);
    }
}

/// A quotient that divides evenly is exact.
proof fn lemma_even_division_is_exact(q: int, b: int)
    requires
        b > 0,
    ensures
        trunc_div(q * b, b) == q,
{
    lemma_div_multiples_vanish(q, b);
    lemma_div_multiples_vanish(-q, b);
    assert(b * q == q * b) by (nonlinear_arith);
    assert(b * (-q) == -(q * b)) by (nonlinear_arith);
}

/// A larger dividend has no smaller quotient.
proof fn lemma_division_is_monotone(a: int, c: int, b: int)
    requires
        a <= c,
        b > 0,
    ensures
        trunc_div(a, b) <= trunc_div(c, b),
{
    if a >= 0 {
        lemma_div_is_ordered(a, c, b);
    } else if c < 0 {
        lemma_div_is_ordered(-c, -a, b);
    } else {
        lemma_division_rounds_toward_zero(a, b);
        lemma_division_rounds_toward_zero(c, b);
        assert((-a) / b >= 0) by (nonlinear_arith)
            requires
                a < 0,
                b > 0,
        ;
        assert(c / b >= 0) by (nonlinear_arith)
            requires
                c >= 0,
                b > 0,
        ;
    }
}

/// Whether `q` is the quotient of `n` by `d`, rounded toward zero: what is left
/// over is smaller than `d` and has the sign of `n`.
pub open spec fn is_rounded(q: int, n: int, d: int) -> bool {
    &&& n >= 0 ==> 0 <= q * d <= n < (q + 1) * d
    &&& n <= 0 ==> (q - 1) * d < n <= q * d <= 0
}

/// A fee is the amount times the rate, by 10000, rounded toward zero.
pub proof fn law_fee_is_rounded(amount: int, fee_bps: int)
    ensures
        is_rounded(fee_on(amount, fee_bps), amount * fee_bps, 10_000),
{
    lemma_division_rounds_toward_zero(amount * fee_bps, 10_000);
}

/// The figures of an exchange follow from what goes in and what comes out. The
/// least output, the rate and the price impact are quotients rounded toward
/// zero; an impact that an `i32` does not hold is given as the bound that it is
/// beyond.
pub proof fn law_figures_follow_from_the_exchange(
    figures: QuoteResponse,
    amount_in: i128,
    amount_out: i128,
    slippage_bps: u32,
    precision: u32,
)
    requires
        amount_in > 0,
        has_figures(figures, amount_in, amount_out, slippage_bps, precision),
    ensures
        figures.amount_out == amount_out,
        figures.precision == precision,
        is_rounded(
            figures.min_amount_out as int,
            amount_out * (10_000 - slippage_bps),
            10_000,
        ),
        is_rounded(
            figures.exchange_rate as int,
            amount_out * pow(10, precision as nat),
            amount_in as int,
        ),
        ({
            let gain = (amount_out - amount_in) * 10_000;
            let impact = figures.price_impact_bps as int;
            ||| is_rounded(impact, gain, amount_in as int)
            ||| impact == i32::MAX && i32::MAX * amount_in <= gain
            ||| impact == i32::MIN && gain <= i32::MIN * amount_in
        }),
{
    let d = amount_in as int;
    let gain = (amount_out - amount_in) * 10_000;
    lemma_division_rounds_toward_zero(amount_out * (10_000 - slippage_bps), 10_000);
    lemma_division_rounds_toward_zero(amount_out * pow(10, precision as nat), d);
    lemma_division_rounds_toward_zero(gain, d);
    let exact = trunc_div(gain, d);
    if exact > i32::MAX {
        assert(0 < exact * d && i32::MAX * d <= exact * d) by (nonlinear_arith)
            requires
                exact > i32::MAX,
                d > 0,
        ;
    } else if exact < i32::MIN {
        assert(exact * d < 0 && exact * d <= i32::MIN * d) by (nonlinear_arith)
            requires
                exact < i32::MIN,
                d > 0,
        ;
    }
}

/// Of all numbers that an `i32` holds, the clamped one is the closest.
pub proof fn law_clamp_is_closest(x: int, other: i32)
    ensures
        i32::MIN <= clamp_i32(x) <= i32::MAX,
        x <= clamp_i32(x) ==> clamp_i32(x) - x <= if x <= other {
            other - x
        } else {
            x - other
        },
        clamp_i32(x) <= x ==> x - clamp_i32(x) <= if x <= other {
            other - x
        } else {
            x - other
        },
{
}

/// The figures of an exchange can be held if and only if an `i128` holds each
/// product and difference that they are taken from.
pub proof fn law_figures_that_fit(
    amount_in: i128,
    amount_out: i128,
    slippage_bps: u32,
    precision: u32,
)
    ensures
        summary_fits(amount_in, amount_out, slippage_bps, precision) <==> {
            let scaled = amount_out * pow(10, precision as nat);
            let kept = amount_out * (10_000 - slippage_bps);
            let gain = (amount_out - amount_in) * 10_000;
            &&& i128::MIN <= kept <= i128::MAX
            &&& i128::MIN <= scaled <= i128::MAX
            &&& i128::MIN <= amount_out - amount_in <= i128::MAX
            &&& i128::MIN <= gain <= i128::MAX
        },
        forall|x: int| #[trigger] fits_i128(x) <==> (x as i128) == x,
{
}

/// A quote is refused if and only if its amount is not positive, its precision
/// is not of 1 to 18 decimal places, or its tolerance is above 100%; the first
/// of these that holds is the reason given.
pub proof fn law_refused_parameters(amount_in: i128, slippage_bps: u32, precision: u32)
    ensures
        ({
            let refusal = parameter_refusal(amount_in, slippage_bps, precision);
            let precise = 1 <= precision <= 18;
            &&& refusal is None <==> amount_in > 0 && precise && slippage_bps <= 10_000
            &&& refusal == Some(QuoteError::InvalidAmount) <==> amount_in <= 0
            &&& refusal == Some(QuoteError::InvalidPrecision) <==> amount_in > 0 && !precise
            &&& refusal == Some(QuoteError::InvalidSlippage) <==> amount_in > 0 && precise
                && slippage_bps > 10_000
        }),
{
}

/// A route is refused if and only if it has no hops, more than five of them, or
/// parameters that a quote is refused for, which count last.
pub proof fn law_refused_routes(
    hop_count: nat,
    amount_in: i128,
    slippage_bps: u32,
    precision: u32,
)
    ensures
        ({
            let refusal = route_refusal(hop_count, amount_in, slippage_bps, precision);
            &&& refusal == Some(QuoteError::EmptyRoute) <==> hop_count == 0
            &&& refusal == Some(QuoteError::RouteTooLong) <==> hop_count > 5
            &&& 1 <= hop_count <= 5 ==> refusal == parameter_refusal(
                amount_in,
                slippage_bps,
                precision,
            )
        }),
{
}

/// A fee rate of at most 100% takes no more than the amount, and a higher rate
/// takes no less.
pub proof fn law_fee_is_a_part(amount: int, fee_bps: int, higher_bps: int)
    requires
        amount >= 0,
        0 <= fee_bps <= higher_bps,
    ensures
        0 <= fee_on(amount, fee_bps) <= fee_on(amount, higher_bps),
        higher_bps <= 10_000 ==> fee_on(amount, higher_bps) <= amount,
{
    assert(0 <= amount * fee_bps <= amount * higher_bps) by (nonlinear_arith)
        requires
            amount >= 0,
            0 <= fee_bps <= higher_bps,
    ;
    lemma_division_is_monotone(0, amount * fee_bps, 10_000);
    lemma_division_is_monotone(amount * fee_bps, amount * higher_bps, 10_000);
    if higher_bps <= 10_000 {
        assert(amount * higher_bps <= amount * 10_000) by (nonlinear_arith)
            requires
                amount >= 0,
                higher_bps <= 10_000,
        ;
        lemma_division_is_monotone(amount * higher_bps, amount * 10_000, 10_000);
        lemma_even_division_is_exact(amount, 10_000);
    }
}

/// The least output to accept lies between nothing and the quoted output. It
/// is all of it without tolerance and nothing of it with a tolerance of 100%.
pub proof fn law_slippage_stays_within_output(amount_out: int, slippage_bps: int)
    requires
        0 <= slippage_bps <= 10_000,
    ensures
        amount_out >= 0 ==> 0 <= min_out_after(amount_out, slippage_bps) <= amount_out,
        amount_out <= 0 ==> amount_out <= min_out_after(amount_out, slippage_bps) <= 0,
        min_out_after(amount_out, 0) == amount_out,
        min_out_after(amount_out, 10_000) == 0,
{
    let kept = 10_000 - slippage_bps;
    lemma_even_division_is_exact(amount_out, 10_000);
    lemma_even_division_is_exact(0, 10_000);
    assert(amount_out * (10_000 - 10_000) == 0);
    assert(amount_out >= 0 ==> 0 <= amount_out * kept <= amount_out * 10_000) by (nonlinear_arith)
        requires
            0 <= kept <= 10_000,
    ;
    assert(amount_out <= 0 ==> amount_out * 10_000 <= amount_out * kept <= 0) by (nonlinear_arith)
        requires
            0 <= kept <= 10_000,
    ;
    if amount_out >= 0 {
        lemma_division_is_monotone(0, amount_out * kept, 10_000);
        lemma_division_is_monotone(amount_out * kept, amount_out * 10_000, 10_000);
    }
    if amount_out <= 0 {
        lemma_division_is_monotone(amount_out * kept, 0, 10_000);
        lemma_division_is_monotone(amount_out * 10_000, amount_out * kept, 10_000);
    }
}

/// A larger tolerance asks for no more of an output.
pub proof fn law_more_slippage_asks_for_less(amount_out: int, slippage_bps: int, larger_bps: int)
    requires
        amount_out >= 0,
        slippage_bps <= larger_bps,
    ensures
        min_out_after(amount_out, larger_bps) <= min_out_after(amount_out, slippage_bps),
{
    assert(amount_out * (10_000 - larger_bps) <= amount_out * (10_000 - slippage_bps))
        by (nonlinear_arith)
        requires
            amount_out >= 0,
            slippage_bps <= larger_bps,
    ;
    lemma_division_is_monotone(
        amount_out * (10_000 - larger_bps),
        amount_out * (10_000 - slippage_bps),
        10_000,
    );
}

/// The exchange rate is the fixed-point number closest to the output per unit
/// of input, on the side of zero.
pub proof fn law_rate_is_output_per_input(amount_in: int, amount_out: int, precision: nat)
    requires
        amount_in > 0,
    ensures
        amount_out >= 0 ==> rate_of(amount_in, amount_out, precision) * amount_in <= amount_out
            * pow(10, precision) < (rate_of(amount_in, amount_out, precision) + 1) * amount_in,
        amount_out <= 0 ==> (rate_of(amount_in, amount_out, precision) - 1) * amount_in
            < amount_out * pow(10, precision) <= rate_of(amount_in, amount_out, precision)
            * amount_in,
{
    lemma_pow_positive(10, precision);
    let scale = pow(10, precision);
    assert(amount_out >= 0 ==> amount_out * scale >= 0) by (nonlinear_arith)
        requires
            scale > 0,
    ;
    assert(amount_out <= 0 ==> amount_out * scale <= 0) by (nonlinear_arith)
        requires
            scale > 0,
    ;
    lemma_division_rounds_toward_zero(amount_out * scale, amount_in);
}

/// A plugin that pays `factor` units for each unit has the rate `factor`,
/// whatever the amount: 2 at a precision of 6 decimal places is 2_000_000.
pub proof fn law_rate_of_a_multiple(amount_in: int, factor: int, precision: nat)
    requires
        amount_in > 0,
    ensures
        rate_of(amount_in, amount_in * factor, precision) == factor * pow(10, precision),
{
    let scale = pow(10, precision);
    assert((amount_in * factor) * scale == (factor * scale) * amount_in) by (nonlinear_arith);
    lemma_even_division_is_exact(factor * scale, amount_in);
}

/// A price impact is negative only where less comes out than goes in, and
/// positive only where more does. One that 32 bits hold is given as it is.
pub proof fn law_price_impact_sign(amount_in: int, amount_out: int)
    requires
        amount_in > 0,
    ensures
        amount_out >= amount_in ==> clamp_i32(impact_of(amount_in, amount_out)) >= 0,
        amount_out <= amount_in ==> clamp_i32(impact_of(amount_in, amount_out)) <= 0,
        i32::MIN <= impact_of(amount_in, amount_out) <= i32::MAX ==> clamp_i32(
            impact_of(amount_in, amount_out),
        ) == impact_of(amount_in, amount_out),
{
    lemma_even_division_is_exact(0, amount_in);
    assert(0 * amount_in == 0);
    if amount_out >= amount_in {
        lemma_division_is_monotone(0, (amount_out - amount_in) * 10_000, amount_in);
    }
    if amount_out <= amount_in {
        lemma_division_is_monotone((amount_out - amount_in) * 10_000, 0, amount_in);
    }
}

/// The fees of a breakdown together.
pub open spec fn fee_sum(results: Seq<HopResult>) -> int
    decreases results.len(),
{
    if results.len() == 0 {
        0
    } else {
        fee_sum(results.drop_last()) + results.last().fee_amount
    }
}

/// In a quote, the amount that comes out of a hop goes into the next one. The
/// first hop takes the amount that was asked about, and the last one pays the
/// amount that is quoted.
pub proof fn law_hops_chain(
    response: QuoteResponse,
    hops: Seq<HopDescriptor>,
    amount_in: i128,
    slippage_bps: u32,
    precision: u32,
    replies: Seq<Option<i128>>,
)
    requires
        hops.len() > 0,
        is_quote(response, hops, amount_in, slippage_bps, precision, replies),
    ensures
        response.hops@.len() == hops.len(),
        response.hops@[0].amount_in == amount_in,
        response.hops@.last().amount_out == response.amount_out,
        forall|i: int|
            1 <= i < hops.len() ==> (#[trigger] response.hops@[i]).amount_in == response.hops@[i
                - 1].amount_out,
{
    assert(is_hop_result(response.hops@[0], hops, amount_in, replies, 0));
    assert(is_hop_result(response.hops@.last(), hops, amount_in, replies, hops.len() - 1));
    assert forall|i: int| 1 <= i < hops.len() implies (#[trigger] response.hops@[i]).amount_in
        == response.hops@[i - 1].amount_out by {
        assert(is_hop_result(response.hops@[i - 1], hops, amount_in, replies, i - 1));
    }
}

/// The total fee of a quote is the sum of the fees of its hops.
pub proof fn law_total_fee_is_the_sum(
    response: QuoteResponse,
    hops: Seq<HopDescriptor>,
    amount_in: i128,
    slippage_bps: u32,
    precision: u32,
    replies: Seq<Option<i128>>,
)
    requires
        is_quote(response, hops, amount_in, slippage_bps, precision, replies),
    ensures
        response.total_fee_amount == fee_sum(response.hops@),
{
    lemma_fees_through_is_sum(response.hops@, hops, amount_in, replies, hops.len());
    assert(response.hops@.take(hops.len() as int) =~= response.hops@);
}

proof fn lemma_fees_through_is_sum(
    results: Seq<HopResult>,
    hops: Seq<HopDescriptor>,
    amount_in: i128,
    replies: Seq<Option<i128>>,
    count: nat,
)
    requires
        count <= hops.len() == results.len(),
        forall|i: int|
            0 <= i < hops.len() ==> is_hop_result(
                #[trigger] results[i],
                hops,
                amount_in,
                replies,
                i,
            ),
    ensures
        fees_through(hops, amount_in, replies, count) == fee_sum(results.take(count as int)),
    decreases count,
{
    if count > 0 {
        lemma_fees_through_is_sum(results, hops, amount_in, replies, (count - 1) as nat);
        assert(results.take(count as int).drop_last() =~= results.take(count - 1));
        assert(is_hop_result(results[count - 1], hops, amount_in, replies, count - 1));
    }
}

/// The answers of the plugins settle a quote: there is one response to them.
pub proof fn law_replies_settle_the_quote(
    response: QuoteResponse,
    other: QuoteResponse,
    hops: Seq<HopDescriptor>,
    amount_in: i128,
    slippage_bps: u32,
    precision: u32,
    replies: Seq<Option<i128>>,
)
    requires
        is_quote(response, hops, amount_in, slippage_bps, precision, replies),
        is_quote(other, hops, amount_in, slippage_bps, precision, replies),
    ensures
        same_response(response, other),
{
    assert forall|i: int| 0 <= i < hops.len() implies response.hops@[i] == other.hops@[i] by {
        assert(is_hop_result(response.hops@[i], hops, amount_in, replies, i));
        assert(is_hop_result(other.hops@[i], hops, amount_in, replies, i));
    }
    assert(response.hops@ =~= other.hops@);
}

/// Whether two responses give the same figures and the same breakdown.
pub open spec fn same_response(response: QuoteResponse, other: QuoteResponse) -> bool {
    &&& response.amount_out == other.amount_out
    &&& response.total_fee_amount == other.total_fee_amount
    &&& response.min_amount_out == other.min_amount_out
    &&& response.exchange_rate == other.exchange_rate
    &&& response.precision == other.precision
    &&& response.price_impact_bps == other.price_impact_bps
    &&& response.hops@ == other.hops@
}

/// Whether two outcomes are the same quote, the same error, or both nothing.
pub open spec fn same_outcome(
    outcome: Option<Result<QuoteResponse, QuoteError>>,
    other: Option<Result<QuoteResponse, QuoteError>>,
) -> bool {
    match (outcome, other) {
        (Some(Ok(response)), Some(Ok(other_response))) => same_response(response, other_response),
        (Some(Err(error)), Some(Err(other_error))) => error == other_error,
        (None, None) => true,
        _ => false,
    }
}

/// Two runs of one route whose plugins give the same answers come to the same.
pub proof fn law_same_replies_same_outcome(
    hops: Seq<HopDescriptor>,
    amount_in: i128,
    slippage_bps: u32,
    precision: u32,
    env: Env,
    after: Env,
    outcome: Option<Result<QuoteResponse, QuoteError>>,
    other_env: Env,
    other_after: Env,
    other_outcome: Option<Result<QuoteResponse, QuoteError>>,
)
    requires
        quotes_route(hops, amount_in, slippage_bps, precision, env, after, outcome),
        quotes_route(
            hops,
            amount_in,
            slippage_bps,
            precision,
            other_env,
            other_after,
            other_outcome,
        ),
        replies_since(plugin_calls(env), plugin_calls(after)) == replies_since(
            plugin_calls(other_env),
            plugin_calls(other_after),
        ),
    ensures
        same_outcome(outcome, other_outcome),
{
    let replies = replies_since(plugin_calls(env), plugin_calls(after));
    if let (Some(Ok(response)), Some(Ok(other))) = (outcome, other_outcome) {
        law_replies_settle_the_quote(
            response,
            other,
            hops,
            amount_in,
            slippage_bps,
            precision,
            replies,
        );
    }
}

/// A route of one hop comes to what a single-hop quote comes to when the plugin
/// gives the same answer: it is refused for the same reason, and is quoted,
/// fails or is not carried on alike.
pub proof fn law_route_of_one_is_a_single_quote(
    hop: HopDescriptor,
    amount_in: i128,
    slippage_bps: u32,
    precision: u32,
    env: Env,
    after: Env,
    single: Option<Result<QuoteResponse, QuoteError>>,
    other_env: Env,
    other_after: Env,
    route: Option<Result<QuoteResponse, QuoteError>>,
)
    requires
        match parameter_refusal(amount_in, slippage_bps, precision) {
            Some(error) => single == Some(Err::<QuoteResponse, QuoteError>(error)) && after == env,
            None => quotes_route(
                seq![hop],
                amount_in,
                slippage_bps,
                precision,
                env,
                after,
                single,
            ),
        },
        match route_refusal(1, amount_in, slippage_bps, precision) {
            Some(error) => route == Some(Err::<QuoteResponse, QuoteError>(error)) && other_after
                == other_env,
            None => quotes_route(
                seq![hop],
                amount_in,
                slippage_bps,
                precision,
                other_env,
                other_after,
                route,
            ),
        },
        replies_since(plugin_calls(env), plugin_calls(after)) == replies_since(
            plugin_calls(other_env),
            plugin_calls(other_after),
        ),
    ensures
        same_outcome(single, route),
{
    if parameter_refusal(amount_in, slippage_bps, precision) is None {
        law_same_replies_same_outcome(
            seq![hop],
            amount_in,
            slippage_bps,
            precision,
            env,
            after,
            single,
            other_env,
            other_after,
            route,
        );
    }
}

/// A quote takes an answer from every plugin of the route. It is announced by
/// one event, and nothing else is.
#[verifier::rlimit(50)]
pub proof fn law_quote_takes_every_reply(
    hops: Seq<HopDescriptor>,
    amount_in: i128,
    slippage_bps: u32,
    precision: u32,
    env: Env,
    after: Env,
    outcome: Option<Result<QuoteResponse, QuoteError>>,
)
    requires
        quotes_route(hops, amount_in, slippage_bps, precision, env, after, outcome),
    ensures
        outcome matches Some(Ok(_)) ==> {
            let replies = replies_since(plugin_calls(env), plugin_calls(after));
            &&& replies.len() == hops.len()
            &&& forall|i: int| 0 <= i < replies.len() ==> (#[trigger] replies[i]) is Some
        },
        outcome matches Some(Ok(_)) ==> published(after).len() == published(env).len() + 1,
        !(outcome matches Some(Ok(_))) ==> published(after) == published(env),
{
    let replies = replies_since(plugin_calls(env), plugin_calls(after));
    if outcome matches Some(Ok(_)) {
        assert forall|i: int| 0 <= i < replies.len() implies (#[trigger] replies[i]) is Some by {
            if i + 1 < replies.len() {
                assert(stage(hops, amount_in, slippage_bps, precision, replies, i + 1)
                    is AwaitsReply);
            }
        }
    }
}

/// A quote is given where every plugin of the route is a contract, each that
/// was asked answered with an amount, and the fees and figures can be held.
#[verifier::rlimit(50)]
pub proof fn law_answered_route_is_quoted(
    hops: Seq<HopDescriptor>,
    amount_in: i128,
    slippage_bps: u32,
    precision: u32,
    env: Env,
    after: Env,
    outcome: Option<Result<QuoteResponse, QuoteError>>,
)
    requires
        quotes_route(hops, amount_in, slippage_bps, precision, env, after, outcome),
        forall|i: int| 0 <= i < hops.len() ==> names_contract((#[trigger] hops[i]).plugin),
        ({
            let replies = replies_since(plugin_calls(env), plugin_calls(after));
            &&& forall|i: int|
                0 <= i < replies.len() ==> (#[trigger] replies[i]) is Some && hop_fits(
                    hops,
                    amount_in,
                    replies,
                    i,
                )
            &&& summary_fits(
                amount_in,
                amount_into(amount_in, replies, hops.len() as int),
                slippage_bps,
                precision,
            )
        }),
    ensures
        outcome matches Some(Ok(_)),
{
    let replies = replies_since(plugin_calls(env), plugin_calls(after));
    if replies.len() > 0 {
        assert(replies[replies.len() - 1] is Some);
    }
    if replies.len() < hops.len() {
        assert(names_contract(hops[replies.len() as int].plugin));
    }
}

/// A quote fails where the last plugin that was asked did not answer with an
/// amount, after every plugin before it did; the plugins behind it are not
/// asked.
#[verifier::rlimit(50)]
pub proof fn law_failure_is_of_the_last_plugin_asked(
    hops: Seq<HopDescriptor>,
    amount_in: i128,
    slippage_bps: u32,
    precision: u32,
    env: Env,
    after: Env,
    outcome: Option<Result<QuoteResponse, QuoteError>>,
)
    requires
        quotes_route(hops, amount_in, slippage_bps, precision, env, after, outcome),
    ensures
        outcome matches Some(Err(error)) ==> {
            let replies = replies_since(plugin_calls(env), plugin_calls(after));
            &&& error == QuoteError::QuoteFailed
            &&& replies.len() > 0
            &&& replies.last() is None
            &&& forall|i: int| 0 <= i < replies.len() - 1 ==> (#[trigger] replies[i]) is Some
        },
        !(outcome matches Some(Err(_))) ==> {
            let replies = replies_since(plugin_calls(env), plugin_calls(after));
            forall|i: int| 0 <= i < replies.len() ==> (#[trigger] replies[i]) is Some
        },
{
    let replies = replies_since(plugin_calls(env), plugin_calls(after));
    assert forall|i: int| 0 <= i < replies.len() - 1 implies (#[trigger] replies[i]) is Some by {
        assert(stage(hops, amount_in, slippage_bps, precision, replies, i + 1) is AwaitsReply);
    }
}

/// An accepted route makes no more than five plugin calls, whatever comes back.
pub proof fn law_calls_are_bounded(
    hops: Seq<HopDescriptor>,
    amount_in: i128,
    slippage_bps: u32,
    precision: u32,
    env: Env,
    after: Env,
    outcome: Option<Result<QuoteResponse, QuoteError>>,
)
    requires
        route_refusal(hops.len(), amount_in, slippage_bps, precision) is None,
        quotes_route(hops, amount_in, slippage_bps, precision, env, after, outcome),
    ensures
        plugin_calls(env).is_prefix_of(plugin_calls(after)),
        plugin_calls(after).len() <= plugin_calls(env).len() + 5,
{
}

/// The fees of a route are those of its first hops, and those of the rest when
/// it starts with what the first hops pay out.
pub proof fn law_fees_add_up_along_a_route(
    hops: Seq<HopDescriptor>,
    amount_in: i128,
    replies: Seq<Option<i128>>,
    split: nat,
    count: nat,
)
    requires
        split <= count <= hops.len(),
        hops.len() <= replies.len(),
    ensures
        fees_through(hops, amount_in, replies, count) == fees_through(
            hops.take(split as int),
            amount_in,
            replies.take(split as int),
            split,
        ) + fees_through(
            hops.skip(split as int),
            amount_into(amount_in, replies, split as int),
            replies.skip(split as int),
            (count - split) as nat,
        ),
    decreases count,
{
    let (head, head_replies) = (hops.take(split as int), replies.take(split as int));
    let (tail, tail_replies) = (hops.skip(split as int), replies.skip(split as int));
    let middle = amount_into(amount_in, replies, split as int);
    if count > split {
        law_fees_add_up_along_a_route(hops, amount_in, replies, split, (count - 1) as nat);
        let i = count - 1 - split;
        assert(tail[i] == hops[count - 1]);
        assert(amount_into(middle, tail_replies, i) == amount_into(amount_in, replies, count - 1));
    } else if count > 0 {
        lemma_fees_of_head(hops, amount_in, replies, split, count);
    }
}

proof fn lemma_fees_of_head(
    hops: Seq<HopDescriptor>,
    amount_in: i128,
    replies: Seq<Option<i128>>,
    split: nat,
    count: nat,
)
    requires
        count <= split <= hops.len() <= replies.len(),
    ensures
        fees_through(hops, amount_in, replies, count) == fees_through(
            hops.take(split as int),
            amount_in,
            replies.take(split as int),
            count,
        ),
    decreases count,
{
    if count > 0 {
        lemma_fees_of_head(hops, amount_in, replies, split, (count - 1) as nat);
        assert(hop_fee(hops, amount_in, replies, count - 1) == hop_fee(
            hops.take(split as int),
            amount_in,
            replies.take(split as int),
            count - 1,
        ));
    }
}

/// An estimate's total is the protocol fee and the network fee together.
pub proof fn law_estimate_total_is_the_sum(request: FeeEstimateRequest)
    requires
        is_estimable(request),
        estimate_fits(request),
    ensures
        estimate_of(request).total_fee == estimate_of(request).protocol_fee + estimate_of(
            request,
        ).network_fee,
        estimate_of(request).protocol_fee >= 0,
{
    lemma_protocol_fee_fits(request);
}

proof fn lemma_protocol_fee_fits(request: FeeEstimateRequest)
    requires
        is_estimable(request),
        estimate_fits(request),
    ensures
        0 <= protocol_fee_of(request) <= i128::MAX,
        estimate_of(request).protocol_fee == protocol_fee_of(request),
{
    law_fee_is_a_part(request.amount as int, 0, request.fee_bps as int);
    assert(request.amount * 0 == 0);
}

/// An estimate is owed if and only if the amount is positive, and can be given
/// if and only if its product with the rate, the total and the effective rate
/// can be held.
pub proof fn law_owed_estimates(request: FeeEstimateRequest, protocol_fee: int)
    requires
        is_rounded(protocol_fee, request.amount * request.fee_bps, 10_000),
    ensures
        is_estimable(request) <==> request.amount > 0,
        estimate_fits(request) <==> {
            let product = request.amount * request.fee_bps;
            &&& i128::MIN <= product <= i128::MAX
            &&& request.network_load_bps >= 8_000 ==> i128::MIN <= protocol_fee + 200 <= i128::MAX
            &&& request.network_load_bps >= 8_000 ==> request.fee_bps * 2 <= u32::MAX
            &&& request.network_load_bps < 8_000 ==> i128::MIN <= protocol_fee + 100 <= i128::MAX
        },
{
    law_fee_is_rounded(request.amount as int, request.fee_bps as int);
    let exact = protocol_fee_of(request);
    assert(exact == protocol_fee);
}

/// The parts of an estimate: the protocol fee is the rate on the amount, by
/// 10000 and rounded down; the network fee is 100 stroops, or 200 under surge
/// pricing, which a network load of 8000 and above meets and which doubles the
/// effective rate; the total is both fees together.
pub proof fn law_parts_of_an_estimate(request: FeeEstimateRequest)
    requires
        request.amount > 0,
        estimate_fits(request),
    ensures
        ({
            let estimate = estimate_of(request);
            let product = request.amount * request.fee_bps;
            &&& estimate.surge_pricing <==> request.network_load_bps >= 8_000
            &&& estimate.protocol_fee * 10_000 <= product < (estimate.protocol_fee + 1) * 10_000
            &&& estimate.total_fee - estimate.protocol_fee == estimate.network_fee
            &&& request.network_load_bps >= 8_000 ==> estimate.network_fee == 200
            &&& request.network_load_bps >= 8_000 ==> estimate.effective_fee_bps == 2
                * request.fee_bps
            &&& request.network_load_bps < 8_000 ==> estimate.network_fee == 100
            &&& request.network_load_bps < 8_000 ==> estimate.effective_fee_bps == request.fee_bps
        }),
{
    lemma_protocol_fee_fits(request);
    law_fee_is_rounded(request.amount as int, request.fee_bps as int);
    assert(request.amount * request.fee_bps >= 0) by (nonlinear_arith)
        requires
            request.amount > 0,
    ;
}

/// Each estimate is announced once, in its place, under `fee_estimated`, with
/// its total and whether it meets surge pricing.
pub proof fn law_estimates_are_announced(estimates: Seq<FeeEstimateResponse>)
    ensures
        announcements_of(estimates).len() == estimates.len(),
        forall|i: int|
            0 <= i < estimates.len() ==> #[trigger] announcements_of(estimates)[i]
                == announcement_of(estimates[i]),
        forall|estimate: FeeEstimateResponse| #[trigger]
            announcement_of(estimate) == (PublishedEvent {
                topic: "fee_estimated"@,
                event: RouterEvent::FeeEstimated {
                    total_fee: estimate.total_fee,
                    surge_pricing: estimate.surge_pricing,
                },
            }),
{
}

/// Of two requests that differ in the network load alone, the one that meets
/// surge pricing pays twice the network fee and has twice the effective rate;
/// the protocol fee is the same.
pub proof fn law_surge_doubles_the_network_fee(
    calm: FeeEstimateRequest,
    busy: FeeEstimateRequest,
)
    requires
        calm.amount == busy.amount,
        calm.fee_bps == busy.fee_bps,
        calm.network_load_bps < 8_000 <= busy.network_load_bps,
        is_estimable(calm),
        estimate_fits(calm),
        estimate_fits(busy),
    ensures
        !estimate_of(calm).surge_pricing,
        estimate_of(busy).surge_pricing,
        estimate_of(busy).network_fee == 2 * estimate_of(calm).network_fee,
        estimate_of(busy).effective_fee_bps == 2 * estimate_of(calm).effective_fee_bps,
        estimate_of(busy).protocol_fee == estimate_of(calm).protocol_fee,
{
}

/// Requests are estimated independently of each other: the estimates for two
/// lists, one behind the other, are those for each of them.
pub proof fn law_estimates_are_independent(
    requests: Seq<FeeEstimateRequest>,
    more: Seq<FeeEstimateRequest>,
)
    ensures
        estimates_of(requests + more) == estimates_of(requests) + estimates_of(more),
{
    let keep = |request: FeeEstimateRequest| is_estimable(request);
    Seq::filter_distributes_over_add(requests, more, keep);
    assert(estimates_of(requests + more) =~= estimates_of(requests) + estimates_of(more));
}

/// A list of one request gives its estimate if its amount is positive, and
/// nothing otherwise.
pub proof fn law_failed_estimates_are_skipped(request: FeeEstimateRequest)
    ensures
        estimates_of(seq![request]) == if request.amount > 0 {
            seq![estimate_of(request)]
        } else {
            Seq::<FeeEstimateResponse>::empty()
        },
{
    reveal_with_fuel(Seq::filter, 2);
    assert(seq![request].drop_last() =~= Seq::<FeeEstimateRequest>::empty());
    assert(estimates_of(seq![request]) =~= if request.amount > 0 {
        seq![estimate_of(request)]
    } else {
        Seq::<FeeEstimateResponse>::empty()
    });
}

/// No two errors are reported under one number.
pub proof fn law_error_codes_differ(error: QuoteError, other: QuoteError)
    requires
        error.ledger_code() == other.ledger_code(),
    ensures
        error == other,
{
}

/// The number that each error is reported under.
pub proof fn law_error_codes(error: QuoteError)
    ensures
        error is InvalidAmount <==> error.ledger_code() == 1,
        error is RouteNotFound <==> error.ledger_code() == 2,
        error is QuoteFailed <==> error.ledger_code() == 3,
        error is InvalidPrecision <==> error.ledger_code() == 4,
        error is InvalidSlippage <==> error.ledger_code() == 5,
        error is EmptyRoute <==> error.ledger_code() == 6,
        error is RouteTooLong <==> error.ledger_code() == 7,
{
}

/// A setting is the text of its variable, whatever that is, and its default if
/// the variable is not set. Each of them follows its own variable alone.
pub proof fn law_settings_follow_their_variables(
    rust_log: Option<String>,
    soroban_rpc_url: Option<String>,
    router_core_contract_id: Option<String>,
    listen_addr: Option<String>,
    config: ServerConfig,
)
    requires
        call_ensures(
            ServerConfig::from_variables,
            (rust_log, soroban_rpc_url, router_core_contract_id, listen_addr),
            config,
        ),
    ensures
        rust_log matches Some(text) ==> config.log_filter@ == text@,
        rust_log is None ==> config.log_filter@ == "info"@,
        soroban_rpc_url matches Some(text) ==> config.rpc_url@ == text@,
        soroban_rpc_url is None ==> config.rpc_url@ == "https://soroban-testnet.stellar.org"@,
        router_core_contract_id == config.router_core_contract_id,
        listen_addr matches Some(text) ==> config.listen_addr@ == text@,
        listen_addr is None ==> config.listen_addr@ == "127.0.0.1:8080"@,
{
}

/// The server reads request bodies of up to one mebibyte.
pub proof fn law_bodies_of_a_mebibyte_are_read(bytes: int)
    ensures
        bytes <= MAX_BODY_BYTES <==> bytes <= 0x10_0000,
{
}

/// One subscriber more: the count goes up by one, from nothing where the
/// transaction was not kept.
pub proof fn law_a_subscriber_comes(counts: Map<Seq<char>, usize>, tx_id: Seq<char>)
    requires
        counts.contains_key(tx_id) ==> counts[tx_id] < usize::MAX,
    ensures
        ({
            let more = with_subscriber(counts, tx_id);
            &&& more.contains_key(tx_id)
            &&& counts.contains_key(tx_id) ==> more[tx_id] - counts[tx_id] == 1
            &&& !counts.contains_key(tx_id) ==> more[tx_id] == 1
        }),
{
}

/// One subscriber less: a count of several goes down by one, a transaction
/// with a count of one or none is kept no longer.
pub proof fn law_a_subscriber_goes(counts: Map<Seq<char>, usize>, tx_id: Seq<char>)
    ensures
        ({
            let fewer = without_subscriber(counts, tx_id);
            let several = counts.contains_key(tx_id) && counts[tx_id] >= 2;
            &&& fewer.contains_key(tx_id) <==> several
            &&& several ==> counts[tx_id] - fewer[tx_id] == 1
        }),
{
}

/// The number of subscribers of a transaction.
pub open spec fn subscriber_count(counts: Map<Seq<char>, usize>, tx_id: Seq<char>) -> int {
    if counts.contains_key(tx_id) {
        counts[tx_id] as int
    } else {
        0
    }
}

/// Where every transaction that is kept has a subscriber, being kept and having
/// a subscriber are the same.
pub proof fn law_kept_means_subscribed(counts: Map<Seq<char>, usize>)
    ensures
        all_subscribed(counts) <==> forall|tx_id: Seq<char>| #[trigger]
            counts.contains_key(tx_id) <==> subscriber_count(counts, tx_id) > 0,
{
}

/// A subscriber more counts one up; a subscriber less counts one down, and
/// leaves a transaction that has none without.
pub proof fn law_subscriptions_are_counted(counts: Map<Seq<char>, usize>, tx_id: Seq<char>)
    requires
        all_subscribed(counts),
        subscriber_count(counts, tx_id) < usize::MAX,
    ensures
        subscriber_count(with_subscriber(counts, tx_id), tx_id) == subscriber_count(counts, tx_id)
            + 1,
        subscriber_count(without_subscriber(counts, tx_id), tx_id) == if subscriber_count(
            counts,
            tx_id,
        ) > 0 {
            subscriber_count(counts, tx_id) - 1
        } else {
            0
        },
        all_subscribed(with_subscriber(counts, tx_id)),
        all_subscribed(without_subscriber(counts, tx_id)),
{
}

/// Subscribing to one transaction, or leaving it, leaves every other
/// transaction alone.
pub proof fn law_subscriptions_are_independent(
    counts: Map<Seq<char>, usize>,
    tx_id: Seq<char>,
    other: Seq<char>,
)
    requires
        tx_id != other,
    ensures
        with_subscriber(counts, tx_id).contains_key(other) == counts.contains_key(other),
        without_subscriber(counts, tx_id).contains_key(other) == counts.contains_key(other),
        counts.contains_key(other) ==> with_subscriber(counts, tx_id)[other] == counts[other],
        counts.contains_key(other) ==> without_subscriber(counts, tx_id)[other] == counts[other],
{
}

/// Leaving undoes subscribing.
pub proof fn law_leaving_undoes_subscribing(counts: Map<Seq<char>, usize>, tx_id: Seq<char>)
    requires
        all_subscribed(counts),
        subscriber_count(counts, tx_id) < usize::MAX,
    ensures
        without_subscriber(with_subscriber(counts, tx_id), tx_id) == counts,
{
    assert(without_subscriber(with_subscriber(counts, tx_id), tx_id) =~= counts);
}

/// The counts once `tx_id` has `n` subscribers more.
pub open spec fn with_subscribers(
    counts: Map<Seq<char>, usize>,
    tx_id: Seq<char>,
    n: nat,
) -> Map<Seq<char>, usize>
    decreases n,
{
    if n == 0 {
        counts
    } else {
        with_subscriber(with_subscribers(counts, tx_id, (n - 1) as nat), tx_id)
    }
}

/// The counts once `tx_id` has `n` subscribers less.
pub open spec fn without_subscribers(
    counts: Map<Seq<char>, usize>,
    tx_id: Seq<char>,
    n: nat,
) -> Map<Seq<char>, usize>
    decreases n,
{
    if n == 0 {
        counts
    } else {
        without_subscribers(without_subscriber(counts, tx_id), tx_id, (n - 1) as nat)
    }
}

/// When as many leave as subscribed, everything is as before.
pub proof fn law_all_leaving_undoes_all_subscribing(
    counts: Map<Seq<char>, usize>,
    tx_id: Seq<char>,
    n: nat,
)
    requires
        all_subscribed(counts),
        subscriber_count(counts, tx_id) + n <= usize::MAX,
    ensures
        all_subscribed(with_subscribers(counts, tx_id, n)),
        subscriber_count(with_subscribers(counts, tx_id, n), tx_id) == subscriber_count(
            counts,
            tx_id,
        ) + n,
        without_subscribers(with_subscribers(counts, tx_id, n), tx_id, n) == counts,
    decreases n,
{
    if n > 0 {
        let fewer = with_subscribers(counts, tx_id, (n - 1) as nat);
        law_all_leaving_undoes_all_subscribing(counts, tx_id, (n - 1) as nat);
        law_leaving_undoes_subscribing(fewer, tx_id);
    }
}

} // verus!
