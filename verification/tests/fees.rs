use router_quote::quote::RouterQuote;
use router_quote::types::{FeeEstimateRequest, FeeEstimateResponse, QuoteError};
use soroban_sdk::testutils::{ContractFunctionSet, EnvTestConfig, Events as _};
use soroban_sdk::{Address, Env, IntoVal, Symbol, Val};

struct Router;

impl ContractFunctionSet for Router {
    fn call(&self, _func: &str, _env: Env, _args: &[Val]) -> Option<Val> {
        None
    }
}

fn setup() -> (Env, Address) {
    let env = Env::new_with_config(EnvTestConfig { capture_snapshot_at_drop: false });
    let router = env.register(Router, ());
    (env, router)
}

fn estimate_fee(
    env: &Env,
    router: &Address,
    request: FeeEstimateRequest,
) -> Result<FeeEstimateResponse, QuoteError> {
    env.as_contract(router, || RouterQuote::estimate_fee(&mut env.clone(), request))
}

fn request(amount: i128, fee_bps: u32, network_load_bps: u32) -> FeeEstimateRequest {
    FeeEstimateRequest { amount, fee_bps, network_load_bps }
}

#[test]
fn test_estimate_fee_no_surge() {
    let (env, router) = setup();
    let req = FeeEstimateRequest { amount: 1_000_000, fee_bps: 30, network_load_bps: 5_000 };
    let resp = estimate_fee(&env, &router, req).unwrap();
    assert_eq!(resp.protocol_fee, 3_000);
    assert_eq!(resp.network_fee, 100);
    assert!(!resp.surge_pricing);
    assert_eq!(resp.effective_fee_bps, 30);
}

#[test]
fn test_estimate_fee_with_surge() {
    let (env, router) = setup();
    let req = FeeEstimateRequest { amount: 1_000_000, fee_bps: 30, network_load_bps: 9_000 };
    let resp = estimate_fee(&env, &router, req).unwrap();
    assert_eq!(resp.network_fee, 200);
    assert!(resp.surge_pricing);
    assert_eq!(resp.effective_fee_bps, 60);
}

#[test]
fn test_estimate_fee_invalid_amount() {
    let (env, router) = setup();
    let req = FeeEstimateRequest { amount: 0, fee_bps: 30, network_load_bps: 0 };
    let r = estimate_fee(&env, &router, req);
    assert_eq!(r, Err(QuoteError::InvalidAmount));
}

#[test]
fn test_estimate_fee_total_is_sum() {
    let (env, router) = setup();
    let req = FeeEstimateRequest { amount: 1_000_000, fee_bps: 100, network_load_bps: 0 };
    let resp = estimate_fee(&env, &router, req).unwrap();
    assert_eq!(resp.total_fee, resp.protocol_fee + resp.network_fee);
}

#[test]
fn surge_pricing_starts_at_eighty_percent() {
    let (env, router) = setup();
    let calm = estimate_fee(&env, &router, request(1_000_000, 30, 7_999)).unwrap();
    let busy = estimate_fee(&env, &router, request(1_000_000, 30, 8_000)).unwrap();
    assert!(!calm.surge_pricing);
    assert!(busy.surge_pricing);
    assert_eq!(busy.protocol_fee, calm.protocol_fee);
    assert_eq!(busy.network_fee, 2 * calm.network_fee);
    assert_eq!(busy.total_fee, 3_200);
}

#[test]
fn fees_round_down() {
    let (env, router) = setup();
    assert_eq!(estimate_fee(&env, &router, request(333, 30, 0)).unwrap().protocol_fee, 0);
    assert_eq!(estimate_fee(&env, &router, request(9_999, 9_999, 0)).unwrap().protocol_fee, 9_998);
}

#[test]
fn an_estimate_is_announced() {
    let (env, router) = setup();
    estimate_fee(&env, &router, request(1_000_000, 30, 8_000)).unwrap();
    let mut topics: soroban_sdk::Vec<Val> = soroban_sdk::Vec::new(&env);
    topics.push_back(Symbol::new(&env, "fee_estimated").to_val());
    let data: Val = (3_200i128, true).into_val(&env);
    let mut expected = soroban_sdk::Vec::new(&env);
    expected.push_back((router.clone(), topics, data));
    assert_eq!(env.events().all(), expected);
}

#[test]
fn a_refused_estimate_is_not_announced() {
    let (env, router) = setup();
    assert_eq!(
        estimate_fee(&env, &router, request(-5, u32::MAX, 0)),
        Err(QuoteError::InvalidAmount)
    );
    assert!(env.events().all().events().is_empty());
}

#[test]
fn estimates_skip_refused_requests() {
    let (env, router) = setup();
    let requests = vec![
        request(1_000_000, 30, 0),
        request(0, 30, 0),
        request(10_000, 100, 10_000),
        request(-1, u32::MAX, 9_000),
    ];
    let estimates = env.as_contract(&router, || {
        RouterQuote::estimate_fees(&mut env.clone(), requests)
    });
    let expected = vec![
        FeeEstimateResponse {
            protocol_fee: 3_000,
            network_fee: 100,
            total_fee: 3_100,
            surge_pricing: false,
            effective_fee_bps: 30,
        },
        FeeEstimateResponse {
            protocol_fee: 100,
            network_fee: 200,
            total_fee: 300,
            surge_pricing: true,
            effective_fee_bps: 200,
        },
    ];
    assert_eq!(estimates, expected);
    assert_eq!(env.events().all().events().len(), 2);
}

#[test]
fn no_requests_give_no_estimates() {
    let (env, _) = setup();
    assert!(RouterQuote::estimate_fees(&mut env.clone(), Vec::new()).is_empty());
}

#[test]
fn requests_that_fit() {
    assert!(request(1, 0, 0).fits());
    assert!(request(i128::MAX, 1, 0).fits());
    assert!(!request(i128::MAX, 2, 0).fits());
    assert!(request(1, u32::MAX, 7_999).fits());
    assert!(!request(1, u32::MAX, 8_000).fits());
    assert!(request(1, u32::MAX / 2, 8_000).fits());
}
