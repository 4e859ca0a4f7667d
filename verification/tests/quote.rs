use std::cell::RefCell;
use std::rc::Rc;

use router_quote::ledger::is_contract;
use router_quote::quote::{HopTally, RouterQuote};
use router_quote::types::{HopDescriptor, QuoteError, QuoteResponse};
use soroban_sdk::testutils::{Address as _, ContractFunctionSet, EnvTestConfig, Events as _};
use soroban_sdk::{Address, Env, Error, FromVal, IntoVal, Symbol, Val};

/// Returns amount_in * 2.
struct DoublePlugin;

impl ContractFunctionSet for DoublePlugin {
    fn call(&self, func: &str, env: Env, args: &[Val]) -> Option<Val> {
        scaled(func, &env, args, 2)
    }
}

/// Returns amount_in * 3.
struct TriplePlugin;

impl ContractFunctionSet for TriplePlugin {
    fn call(&self, func: &str, env: Env, args: &[Val]) -> Option<Val> {
        scaled(func, &env, args, 3)
    }
}

fn scaled(func: &str, env: &Env, args: &[Val], factor: i128) -> Option<Val> {
    if func == "get_quote" && args.len() == 3 {
        let amount_in = i128::from_val(env, &args[2]);
        Some((amount_in * factor).into_val(env))
    } else {
        None
    }
}

fn answer(func: &str, value: Val) -> Option<Val> {
    if func == "get_quote" {
        Some(value)
    } else {
        None
    }
}

/// Returns the same amount whatever it is asked.
struct FixedPlugin(i128);

impl ContractFunctionSet for FixedPlugin {
    fn call(&self, func: &str, env: Env, _args: &[Val]) -> Option<Val> {
        answer(func, self.0.into_val(&env))
    }
}

/// Has no function at all.
struct MissingPlugin;

impl ContractFunctionSet for MissingPlugin {
    fn call(&self, _func: &str, _env: Env, _args: &[Val]) -> Option<Val> {
        None
    }
}

/// Answers with something else than an amount.
struct WordyPlugin;

impl ContractFunctionSet for WordyPlugin {
    fn call(&self, func: &str, env: Env, _args: &[Val]) -> Option<Val> {
        answer(func, Symbol::new(&env, "plenty").to_val())
    }
}

/// Answers with an error of its own.
struct RefusingPlugin;

impl ContractFunctionSet for RefusingPlugin {
    fn call(&self, func: &str, _env: Env, _args: &[Val]) -> Option<Val> {
        answer(func, Error::from_contract_error(9).to_val())
    }
}

type Seen = Rc<RefCell<Vec<(String, Address, Address, i128)>>>;

/// Notes what it is asked, and returns amount_in + 1.
struct NotingPlugin(Seen);

impl ContractFunctionSet for NotingPlugin {
    fn call(&self, func: &str, env: Env, args: &[Val]) -> Option<Val> {
        if func != "get_quote" {
            return None;
        }
        let amount_in = i128::from_val(&env, &args[2]);
        self.0.borrow_mut().push((
            func.to_string(),
            Address::from_val(&env, &args[0]),
            Address::from_val(&env, &args[1]),
            amount_in,
        ));
        Some((amount_in + 1).into_val(&env))
    }
}

/// A ledger with the router on it.
struct Ledger {
    env: Env,
    router: Address,
}

impl Ledger {
    fn new() -> Ledger {
        let env = Env::new_with_config(EnvTestConfig { capture_snapshot_at_drop: false });
        let router = env.register(MissingPlugin, ());
        Ledger { env, router }
    }

    fn token(&self) -> Address {
        Address::generate(&self.env)
    }

    fn get_quote(
        &self,
        plugin: &Address,
        amount_in: i128,
        fee_bps: u32,
        slippage_bps: u32,
        precision: u32,
    ) -> Option<Result<QuoteResponse, QuoteError>> {
        let (token_in, token_out) = (self.token(), self.token());
        self.env.as_contract(&self.router, || {
            let mut env = self.env.clone();
            RouterQuote::get_quote(
                &mut env,
                plugin.clone(),
                token_in,
                token_out,
                amount_in,
                fee_bps,
                slippage_bps,
                precision,
            )
        })
    }

    fn get_multihop_quote(
        &self,
        hops: Vec<HopDescriptor>,
        amount_in: i128,
        slippage_bps: u32,
        precision: u32,
    ) -> Option<Result<QuoteResponse, QuoteError>> {
        self.env.as_contract(&self.router, || {
            let mut env = self.env.clone();
            RouterQuote::get_multihop_quote(&mut env, hops, amount_in, slippage_bps, precision)
        })
    }

    fn hop(&self, plugin: &Address, fee_bps: u32) -> HopDescriptor {
        HopDescriptor {
            plugin: plugin.clone(),
            token_in: self.token(),
            token_out: self.token(),
            fee_bps,
        }
    }
}

fn setup() -> (Ledger, Address, Address) {
    let ledger = Ledger::new();
    let double = ledger.env.register(DoublePlugin, ());
    let triple = ledger.env.register(TriplePlugin, ());
    (ledger, double, triple)
}

#[test]
fn test_get_quote_returns_correct_amount_out() {
    let (ledger, double, _) = setup();
    let resp = ledger.get_quote(&double, 1_000_000, 0, 0, 6).unwrap().unwrap();
    assert_eq!(resp.amount_out, 2_000_000);
}

#[test]
fn test_get_quote_exchange_rate() {
    let (ledger, double, _) = setup();
    let resp = ledger.get_quote(&double, 1_000_000, 0, 0, 6).unwrap().unwrap();
    assert_eq!(resp.exchange_rate, 2_000_000);
    assert_eq!(resp.precision, 6);
}

#[test]
fn test_get_quote_fee_deducted() {
    let (ledger, double, _) = setup();
    let resp = ledger.get_quote(&double, 1_000_000, 30, 0, 6).unwrap().unwrap();
    assert_eq!(resp.total_fee_amount, 3_000);
}

#[test]
fn test_get_quote_slippage_applied() {
    let (ledger, double, _) = setup();
    let resp = ledger.get_quote(&double, 1_000_000, 0, 50, 6).unwrap().unwrap();
    assert_eq!(resp.min_amount_out, 1_990_000);
}

#[test]
fn test_get_quote_hop_breakdown() {
    let (ledger, double, _) = setup();
    let resp = ledger.get_quote(&double, 1_000_000, 0, 0, 6).unwrap().unwrap();
    assert_eq!(resp.hops.len(), 1);
    assert_eq!(resp.hops.get(0).unwrap().amount_in, 1_000_000);
    assert_eq!(resp.hops.get(0).unwrap().amount_out, 2_000_000);
}

#[test]
fn test_get_quote_invalid_amount() {
    let (ledger, double, _) = setup();
    let r = ledger.get_quote(&double, 0, 0, 0, 6);
    assert_eq!(r, Some(Err(QuoteError::InvalidAmount)));
}

#[test]
fn test_get_quote_invalid_precision() {
    let (ledger, double, _) = setup();
    let r = ledger.get_quote(&double, 1_000_000, 0, 0, 0);
    assert_eq!(r, Some(Err(QuoteError::InvalidPrecision)));
}

#[test]
fn test_get_quote_invalid_slippage() {
    let (ledger, double, _) = setup();
    let r = ledger.get_quote(&double, 1_000_000, 0, 10_001, 6);
    assert_eq!(r, Some(Err(QuoteError::InvalidSlippage)));
}

#[test]
fn test_multihop_two_hops_chains_correctly() {
    let (ledger, double, triple) = setup();
    let ta = ledger.token();
    let tb = ledger.token();
    let tc = ledger.token();
    let hops = vec![
        HopDescriptor { plugin: double, token_in: ta, token_out: tb.clone(), fee_bps: 0 },
        HopDescriptor { plugin: triple, token_in: tb, token_out: tc, fee_bps: 0 },
    ];
    let resp = ledger.get_multihop_quote(hops, 1_000_000, 0, 6).unwrap().unwrap();
    assert_eq!(resp.amount_out, 6_000_000);
    assert_eq!(resp.hops.len(), 2);
}

#[test]
fn test_multihop_empty_hops_returns_error() {
    let (ledger, _, _) = setup();
    let r = ledger.get_multihop_quote(Vec::new(), 1_000_000, 0, 6);
    assert_eq!(r, Some(Err(QuoteError::EmptyRoute)));
}

#[test]
fn multihop_figures_and_breakdown() {
    let (ledger, double, triple) = setup();
    let first = ledger.hop(&double, 30);
    let second = ledger.hop(&triple, 100);
    let resp = ledger
        .get_multihop_quote(vec![first.clone(), second.clone()], 1_000, 250, 2)
        .unwrap()
        .unwrap();
    assert_eq!(resp.amount_out, 6_000);
    assert_eq!(resp.total_fee_amount, 3 + 20);
    assert_eq!(resp.min_amount_out, 5_850);
    assert_eq!(resp.exchange_rate, 600);
    assert_eq!(resp.precision, 2);
    assert_eq!(resp.price_impact_bps, 50_000);
    assert_eq!(resp.hops.len(), 2);
    assert_eq!(resp.hops[0].token_in, first.token_in);
    assert_eq!(resp.hops[0].token_out, first.token_out);
    assert_eq!(resp.hops[0].amount_in, 1_000);
    assert_eq!(resp.hops[0].amount_out, 2_000);
    assert_eq!(resp.hops[0].fee_amount, 3);
    assert_eq!(resp.hops[1].token_in, second.token_in);
    assert_eq!(resp.hops[1].token_out, second.token_out);
    assert_eq!(resp.hops[1].amount_in, 2_000);
    assert_eq!(resp.hops[1].amount_out, 6_000);
    assert_eq!(resp.hops[1].fee_amount, 20);
}

#[test]
fn plugins_are_asked_in_order_with_the_chained_amounts() {
    let ledger = Ledger::new();
    let seen: Seen = Rc::new(RefCell::new(Vec::new()));
    let plugin = ledger.env.register(NotingPlugin(seen.clone()), ());
    let other = ledger.env.register(NotingPlugin(seen.clone()), ());
    let hops = vec![ledger.hop(&plugin, 0), ledger.hop(&other, 0)];
    let resp = ledger.get_multihop_quote(hops.clone(), 10, 0, 1).unwrap().unwrap();
    assert_eq!(resp.amount_out, 12);
    let expected = vec![
        ("get_quote".to_string(), hops[0].token_in.clone(), hops[0].token_out.clone(), 10),
        ("get_quote".to_string(), hops[1].token_in.clone(), hops[1].token_out.clone(), 11),
    ];
    assert_eq!(*seen.borrow(), expected);
}

#[test]
fn a_failed_plugin_ends_the_route() {
    let ledger = Ledger::new();
    let seen: Seen = Rc::new(RefCell::new(Vec::new()));
    let missing = ledger.env.register(MissingPlugin, ());
    let noting = ledger.env.register(NotingPlugin(seen.clone()), ());
    let hops = vec![ledger.hop(&missing, 0), ledger.hop(&noting, 0)];
    let r = ledger.get_multihop_quote(hops, 10, 0, 6);
    assert_eq!(r, Some(Err(QuoteError::QuoteFailed)));
    assert!(seen.borrow().is_empty());
    assert!(ledger.env.events().all().events().is_empty());
}

#[test]
fn every_failure_of_a_plugin_is_a_failed_quote() {
    let ledger = Ledger::new();
    let wordy = ledger.env.register(WordyPlugin, ());
    let refusing = ledger.env.register(RefusingPlugin, ());
    let nowhere = Address::generate(&ledger.env);
    for plugin in [wordy, refusing, nowhere] {
        let r = ledger.get_quote(&plugin, 10, 0, 0, 6);
        assert_eq!(r, Some(Err(QuoteError::QuoteFailed)));
    }
}

#[test]
fn an_account_is_no_plugin() {
    let ledger = Ledger::new();
    let account = Address::from_str(
        &ledger.env,
        "GAAZI4TCR3TY5OJHCTJC2A4QSY6CJWJH5IAJTGKIN2ER7LBNVKOCCWN7",
    );
    assert!(!is_contract(&account));
    assert!(is_contract(&ledger.router));
    assert_eq!(ledger.get_quote(&account, 10, 0, 0, 6), None);
}

#[test]
fn addresses_made_on_another_ledger_keep_their_meaning() {
    let ledger = Ledger::new();
    let seen: Seen = Rc::new(RefCell::new(Vec::new()));
    let plugin = ledger.env.register(NotingPlugin(seen.clone()), ());
    let (token_in, token_out) = (ledger.token(), ledger.token());

    // The same addresses, as objects of a ledger that numbers them otherwise.
    let elsewhere = Ledger::new();
    let abroad = |address: &Address| {
        elsewhere.token();
        Address::from_str(&elsewhere.env, &format!("{}", address.to_string()))
    };
    let hop = HopDescriptor {
        token_out: abroad(&token_out),
        plugin: abroad(&plugin),
        token_in: abroad(&token_in),
        fee_bps: 0,
    };
    let resp = ledger.get_multihop_quote(vec![hop], 10, 0, 1).unwrap().unwrap();
    assert_eq!(resp.amount_out, 11);
    let expected = vec![("get_quote".to_string(), token_in, token_out, 10)];
    assert_eq!(*seen.borrow(), expected);
}

#[test]
fn refusals_come_in_order() {
    let (ledger, double, _) = setup();
    let too_long = vec![ledger.hop(&double, 0); 6];
    assert_eq!(
        ledger.get_multihop_quote(too_long, 0, 10_001, 0),
        Some(Err(QuoteError::RouteTooLong))
    );
    assert_eq!(
        ledger.get_multihop_quote(vec![ledger.hop(&double, 0)], -1, 10_001, 19),
        Some(Err(QuoteError::InvalidAmount))
    );
    assert_eq!(
        ledger.get_multihop_quote(vec![ledger.hop(&double, 0)], 1, 10_001, 19),
        Some(Err(QuoteError::InvalidPrecision))
    );
    assert_eq!(
        ledger.get_multihop_quote(vec![ledger.hop(&double, 0)], 1, 10_001, 18),
        Some(Err(QuoteError::InvalidSlippage))
    );
    assert_eq!(
        ledger.get_quote(&double, i128::MIN, 0, 10_001, 19),
        Some(Err(QuoteError::InvalidAmount))
    );
    assert_eq!(
        ledger.get_quote(&double, 1, 0, 10_001, 19),
        Some(Err(QuoteError::InvalidPrecision))
    );
}

#[test]
fn the_longest_route_has_five_hops() {
    let (ledger, double, _) = setup();
    let resp = ledger
        .get_multihop_quote(vec![ledger.hop(&double, 0); 5], 1, 10_000, 18)
        .unwrap()
        .unwrap();
    assert_eq!(resp.amount_out, 32);
    assert_eq!(resp.min_amount_out, 0);
    assert_eq!(resp.exchange_rate, 32_000_000_000_000_000_000);
}

#[test]
fn a_single_hop_route_is_a_single_hop_quote() {
    let (ledger, _, triple) = setup();
    let hop = ledger.hop(&triple, 77);
    let multi = ledger.get_multihop_quote(vec![hop.clone()], 12_345, 99, 9);
    let single = ledger.env.as_contract(&ledger.router, || {
        RouterQuote::get_quote(
            &mut ledger.env.clone(),
            hop.plugin,
            hop.token_in,
            hop.token_out,
            12_345,
            77,
            99,
            9,
        )
    });
    assert_eq!(single, multi);
    assert_eq!(single.unwrap().unwrap().total_fee_amount, 95);
}

#[test]
fn negative_answers_round_toward_zero() {
    let ledger = Ledger::new();
    let debt = ledger.env.register(FixedPlugin(-15), ());
    let one = ledger.env.register(FixedPlugin(1), ());
    let hops = vec![ledger.hop(&debt, 0), ledger.hop(&one, 5_000)];
    let resp = ledger.get_multihop_quote(hops, 10, 0, 1).unwrap().unwrap();
    assert_eq!(resp.hops[1].amount_in, -15);
    assert_eq!(resp.hops[1].fee_amount, -7);
    assert_eq!(resp.total_fee_amount, -7);
    let resp = ledger.get_quote(&debt, 10, 0, 5_000, 1).unwrap().unwrap();
    assert_eq!(resp.min_amount_out, -7);
    assert_eq!(resp.exchange_rate, -15);
    assert_eq!(resp.price_impact_bps, -25_000);
}

#[test]
fn a_large_price_impact_keeps_its_sign() {
    let ledger = Ledger::new();
    let windfall = ledger.env.register(FixedPlugin(300_001), ());
    let resp = ledger.get_quote(&windfall, 1, 0, 0, 1).unwrap().unwrap();
    assert_eq!(resp.amount_out, 300_001);
    assert_eq!(resp.price_impact_bps, i32::MAX);
    let ruin = ledger.env.register(FixedPlugin(-300_001), ());
    let resp = ledger.get_quote(&ruin, 1, 0, 0, 1).unwrap().unwrap();
    assert_eq!(resp.price_impact_bps, i32::MIN);
}

#[test]
fn amounts_beyond_the_range_abort_the_quote() {
    let ledger = Ledger::new();
    let huge = ledger.env.register(FixedPlugin(i128::MAX), ());
    let small = ledger.env.register(FixedPlugin(1), ());
    // The scaled output does not fit.
    assert_eq!(ledger.get_quote(&huge, 1, 0, 10_000, 1), None);
    // The fee of the second hop does not fit, though the route ends well.
    let hops = vec![ledger.hop(&huge, 0), ledger.hop(&small, 2)];
    assert_eq!(ledger.get_multihop_quote(hops, 1, 0, 1), None);
    // Without that fee, it does.
    let hops = vec![ledger.hop(&huge, 0), ledger.hop(&small, 1)];
    assert!(matches!(ledger.get_multihop_quote(hops, 1, 0, 1), Some(Ok(_))));
}

#[test]
fn an_abort_does_not_hide_an_earlier_failure() {
    let ledger = Ledger::new();
    let missing = ledger.env.register(MissingPlugin, ());
    assert_eq!(
        ledger.get_quote(&missing, i128::MAX, u32::MAX, 0, 6),
        Some(Err(QuoteError::QuoteFailed))
    );
}

#[test]
fn a_quote_is_announced() {
    let (ledger, double, _) = setup();
    ledger.get_quote(&double, 500, 0, 0, 3).unwrap().unwrap();
    let env = &ledger.env;
    let mut topics: soroban_sdk::Vec<Val> = soroban_sdk::Vec::new(env);
    topics.push_back(Symbol::new(env, "quote_generated").to_val());
    let data: Val = (500i128, 1_000i128, 2_000i128).into_val(env);
    let mut expected = soroban_sdk::Vec::new(env);
    expected.push_back((ledger.router.clone(), topics, data));
    assert_eq!(env.events().all(), expected);
}

#[test]
fn a_refusal_is_not_announced() {
    let (ledger, double, _) = setup();
    assert_eq!(ledger.get_quote(&double, 0, 0, 0, 3), Some(Err(QuoteError::InvalidAmount)));
    assert!(ledger.env.events().all().events().is_empty());
}

#[test]
fn powers_of_ten() {
    assert_eq!(RouterQuote::pow10(0), 1);
    assert_eq!(RouterQuote::pow10(3), 1_000);
    assert_eq!(RouterQuote::pow10(18), 1_000_000_000_000_000_000);
    assert_eq!(RouterQuote::pow10(38), 10i128.pow(38));
}

#[test]
fn a_tally_keeps_what_fits() {
    let (ledger, double, _) = setup();
    let mut tally = HopTally::start(2_000_000);
    assert!(tally.record(&ledger.hop(&double, 30), 5));
    assert_eq!(tally.amount, 5);
    assert_eq!(tally.total_fee, 6_000);
    tally.amount = i128::MAX;
    assert!(!tally.record(&ledger.hop(&double, 30), 7));
    assert_eq!(tally.amount, i128::MAX);
    assert_eq!(tally.results.len(), 1);
    tally.amount = i128::MAX / 10_000;
    tally.total_fee = i128::MAX;
    assert!(!tally.record(&ledger.hop(&double, 10_000), 7));
    assert_eq!(tally.total_fee, i128::MAX);
}

#[test]
fn error_codes() {
    let codes = [
        QuoteError::InvalidAmount,
        QuoteError::RouteNotFound,
        QuoteError::QuoteFailed,
        QuoteError::InvalidPrecision,
        QuoteError::InvalidSlippage,
        QuoteError::EmptyRoute,
        QuoteError::RouteTooLong,
    ]
    .map(|error| error.code());
    assert_eq!(codes, [1, 2, 3, 4, 5, 6, 7]);
}
