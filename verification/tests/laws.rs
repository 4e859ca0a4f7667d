use router_quote::amounts::{exchange_rate, fee_amount, min_amount_out, price_impact_bps};
use router_quote::ledger::RouterEvent;
use router_quote::quote::{HopTally, RouterQuote};
use router_quote::types::{FeeEstimateRequest, HopDescriptor};
use soroban_sdk::testutils::{Address as _, EnvTestConfig};
use soroban_sdk::{Address, Env};

fn ledger() -> Env {
    Env::new_with_config(EnvTestConfig { capture_snapshot_at_drop: false })
}

fn hop(env: &Env, fee_bps: u32) -> HopDescriptor {
    HopDescriptor {
        plugin: Address::generate(env),
        token_in: Address::generate(env),
        token_out: Address::generate(env),
        fee_bps,
    }
}

#[test]
fn a_fee_is_a_part_of_the_amount() {
    assert_eq!(fee_amount(12_345, 0), Some(0));
    assert_eq!(fee_amount(12_345, 30), Some(37));
    assert_eq!(fee_amount(12_345, 31), Some(38));
    assert_eq!(fee_amount(12_345, 10_000), Some(12_345));
    assert_eq!(fee_amount(-12_345, 30), Some(-37));
    assert_eq!(fee_amount(i128::MIN, 1), Some(i128::MIN / 10_000));
    assert_eq!(fee_amount(i128::MIN, 2), None);
}

#[test]
fn slippage_stays_within_the_output() {
    assert_eq!(min_amount_out(999, 0), Some(999));
    assert_eq!(min_amount_out(999, 1), Some(998));
    assert_eq!(min_amount_out(999, 5_000), Some(499));
    assert_eq!(min_amount_out(999, 10_000), Some(0));
    assert_eq!(min_amount_out(-999, 5_000), Some(-499));
    assert_eq!(min_amount_out(i128::MAX, 0), None);
    assert_eq!(min_amount_out(i128::MAX, 10_000), Some(0));
}

#[test]
fn the_rate_of_a_multiple_is_the_factor() {
    for amount_in in [1, 7, 1_000_000] {
        assert_eq!(exchange_rate(amount_in, 2 * amount_in, 1_000_000), Some(2_000_000));
    }
    assert_eq!(exchange_rate(3, 1, 1_000), Some(333));
    assert_eq!(exchange_rate(3, -1, 1_000), Some(-333));
    assert_eq!(exchange_rate(1, i128::MAX, 10), None);
}

#[test]
fn the_price_impact_is_negative_where_less_comes_out() {
    assert_eq!(price_impact_bps(10_000, 10_000), Some(0));
    assert_eq!(price_impact_bps(10_000, 9_999), Some(-1));
    assert_eq!(price_impact_bps(10_000, 10_001), Some(1));
    assert_eq!(price_impact_bps(1, 214_749), Some(2_147_480_000));
    assert_eq!(price_impact_bps(1, 214_750), Some(i32::MAX));
    assert_eq!(price_impact_bps(1, -214_747), Some(-2_147_480_000));
    assert_eq!(price_impact_bps(1, -214_748), Some(i32::MIN));
    assert_eq!(price_impact_bps(1, i128::MIN), None);
    assert_eq!(price_impact_bps(1, i128::MAX), None);
}

#[test]
fn hops_chain_and_their_fees_add_up() {
    let env = ledger();
    let hops = [hop(&env, 100), hop(&env, 50), hop(&env, 25)];
    let answers = [2_000, 40_000, 8_000];

    let mut whole = HopTally::start(1_000);
    for (hop, answer) in hops.iter().zip(answers) {
        assert!(whole.record(hop, answer));
    }
    for i in 1..3 {
        assert_eq!(whole.results[i].amount_in, whole.results[i - 1].amount_out);
    }
    let sum: i128 = whole.results.iter().map(|result| result.fee_amount).sum();
    assert_eq!(whole.total_fee, sum);
    assert_eq!(whole.total_fee, 10 + 10 + 100);

    let mut head = HopTally::start(1_000);
    assert!(head.record(&hops[0], 2_000));
    let mut tail = HopTally::start(head.amount);
    assert!(tail.record(&hops[1], 40_000));
    assert!(tail.record(&hops[2], 8_000));
    assert_eq!(head.total_fee + tail.total_fee, whole.total_fee);

    let quote = whole.summarize(1_000, 100, 2).unwrap();
    assert_eq!(quote.hops[0].amount_in, 1_000);
    assert_eq!(quote.hops[2].amount_out, quote.amount_out);
    assert_eq!(quote.min_amount_out, 7_920);
    assert_eq!(quote.exchange_rate, 800);
    assert_eq!(quote.price_impact_bps, 70_000);
}

#[test]
fn estimates_are_independent() {
    let request = |amount| FeeEstimateRequest { amount, fee_bps: 500, network_load_bps: 0 };
    let first = vec![request(100), request(0)];
    let second = vec![request(-3), request(1_000)];
    let both = [first.clone(), second.clone()].concat();
    let mut env = ledger();
    let mut apart = RouterQuote::estimate_fees(&mut env, first);
    apart.extend(RouterQuote::estimate_fees(&mut env, second));
    assert_eq!(RouterQuote::estimate_fees(&mut env, both), apart);
    assert_eq!(apart.len(), 2);
    assert_eq!(apart[0].total_fee, 105);
    assert_eq!(apart[1].total_fee, 150);
}

#[test]
fn topics() {
    let fee = RouterEvent::FeeEstimated { total_fee: 1, surge_pricing: false };
    let quote = RouterEvent::QuoteGenerated { amount_in: 1, amount_out: 2, exchange_rate: 3 };
    assert_eq!(fee.topic(), "fee_estimated");
    assert_eq!(quote.topic(), "quote_generated");
}
