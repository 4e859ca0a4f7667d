use router_quote::config::ServerConfig;
use router_quote::state::AppState;
use tokio::sync::broadcast::error::TryRecvError;

fn count(state: &AppState<String, u32>, tx_id: &str) -> Option<usize> {
    state.tx_subscribers.get(tx_id).map(|entry| *entry)
}

fn started() -> AppState<String, u32> {
    AppState::new("client".to_string())
}

#[test]
fn a_new_state_has_no_subscribers() {
    let state = started();
    assert_eq!(state.rpc, "client");
    assert!(state.tx_subscribers.is_empty());
    assert_eq!(state.tx_status_tx.sender().receiver_count(), 0);
}

#[test]
fn subscribers_are_counted() {
    let mut state = started();
    state.add_subscriber("a".to_string());
    state.add_subscriber("a".to_string());
    state.add_subscriber("b".to_string());
    assert_eq!(count(&state, "a"), Some(2));
    assert_eq!(count(&state, "b"), Some(1));
    state.remove_subscriber("a");
    assert_eq!(count(&state, "a"), Some(1));
    assert_eq!(count(&state, "b"), Some(1));
}

#[test]
fn the_last_subscriber_takes_the_entry_along() {
    let mut state = started();
    state.add_subscriber("a".to_string());
    state.remove_subscriber("a");
    assert_eq!(count(&state, "a"), None);
    assert!(state.tx_subscribers.is_empty());
    state.remove_subscriber("a");
    assert!(state.tx_subscribers.is_empty());
}

#[test]
fn adding_and_removing_cancel_out() {
    let mut state = started();
    for _ in 0..3 {
        state.add_subscriber("a".to_string());
    }
    for _ in 0..5 {
        state.add_subscriber("a".to_string());
    }
    for _ in 0..5 {
        state.remove_subscriber("a");
    }
    assert_eq!(count(&state, "a"), Some(3));
}

#[test]
fn a_status_reaches_every_receiver() {
    let mut state = started();
    let mut first = state.tx_status_tx.sender().subscribe();
    let mut second = state.tx_status_tx.sender().subscribe();
    state.broadcast_status(7);
    state.broadcast_status(8);
    assert_eq!(first.try_recv(), Ok(7));
    assert_eq!(first.try_recv(), Ok(8));
    assert_eq!(first.try_recv(), Err(TryRecvError::Empty));
    assert_eq!(second.try_recv(), Ok(7));
}

#[test]
fn a_status_without_receivers_is_dropped() {
    let mut state = started();
    state.broadcast_status(7);
    let mut late = state.tx_status_tx.sender().subscribe();
    assert_eq!(late.try_recv(), Err(TryRecvError::Empty));
}

#[test]
fn the_channel_keeps_a_thousand_statuses() {
    let mut state = started();
    let mut lagging = state.tx_status_tx.sender().subscribe();
    for status in 0..1_000 {
        state.broadcast_status(status);
    }
    assert_eq!(lagging.try_recv(), Ok(0));
    for status in 1_000..2_100 {
        state.broadcast_status(status);
    }
    assert!(matches!(lagging.try_recv(), Err(TryRecvError::Lagged(_))));
}

#[test]
fn unset_variables_take_their_defaults() {
    let config = ServerConfig::from_variables(None, None, None, None);
    assert_eq!(config.log_filter, "info");
    assert_eq!(config.rpc_url, "https://soroban-testnet.stellar.org");
    assert_eq!(config.router_core_contract_id, None);
    assert_eq!(config.listen_addr, "127.0.0.1:8080");
}

#[test]
fn set_variables_are_taken_as_they_are() {
    let config = ServerConfig::from_variables(
        Some("debug".to_string()),
        Some(String::new()),
        Some("CONTRACT".to_string()),
        Some("0.0.0.0:80".to_string()),
    );
    assert_eq!(config.log_filter, "debug");
    assert_eq!(config.rpc_url, "");
    assert_eq!(config.router_core_contract_id, Some("CONTRACT".to_string()));
    assert_eq!(config.listen_addr, "0.0.0.0:80");
}
