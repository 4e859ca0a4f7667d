//! Settings of the API server, read from the variables of its environment.

use vstd::prelude::*;

verus! {

/// The largest request body that the server reads, in bytes.
pub const MAX_BODY_BYTES: usize = 1024 * 1024;

/// What the server is started with.
pub struct ServerConfig {
    /// Which log records are kept.
    pub log_filter: String,
    /// Endpoint of the ledger's RPC service.
    pub rpc_url: String,
    /// The router's core contract, where one is configured.
    pub router_core_contract_id: Option<String>,
    /// Address that the server listens on.
    pub listen_addr: String,
}

/// The text of a variable, or `default` where it is not set.
pub open spec fn text_or(variable: Option<String>, default: Seq<char>) -> Seq<char> {
    match variable {
        Some(text) => text@,
        None => default,
    }
}

/// The variable's text, or a copy of `default` where it is not set.
fn value_or(variable: Option<String>, default: &str) -> (text: String)
    ensures
        text@ == text_or(variable, default@),
{
    match variable {
        Some(text) => text,
        None => default.to_owned(),
    }
}

impl ServerConfig {
    /// The settings that the variables `RUST_LOG`, `SOROBAN_RPC_URL`,
    /// `ROUTER_CORE_CONTRACT_ID` and `LISTEN_ADDR` give, each of which may be
    /// unset.
    pub fn from_variables(
        rust_log: Option<String>,
        soroban_rpc_url: Option<String>,
        router_core_contract_id: Option<String>,
        listen_addr: Option<String>,
    ) -> (config: ServerConfig)
        ensures
            config.log_filter@ == text_or(rust_log, "info"@),
            config.rpc_url@ == text_or(soroban_rpc_url, "https://soroban-testnet.stellar.org"@),
            config.router_core_contract_id == router_core_contract_id,
            config.listen_addr@ == text_or(listen_addr, "127.0.0.1:8080"@),
    {
        ServerConfig {
            log_filter: value_or(rust_log, "info"),
            rpc_url: value_or(soroban_rpc_url, "https://soroban-testnet.stellar.org"),
            router_core_contract_id,
            listen_addr: value_or(listen_addr, "127.0.0.1:8080"),
        }
    }
}

} // verus!
