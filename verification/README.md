# router-quote

Quotes for routes of liquidity plugins on a Soroban ledger, fee estimates for
transactions, and the subscription state of the API server in front of them.
Written in Verus: the functions of the library state what they return, and Verus
proves it. What they rest on is said at the few functions of `src/ledger.rs` and
`src/state.rs` that call the ledger, the subscription map and the status channel.

- `src/` is the library. `src/lib.rs` says what its modules hold; `src/laws.rs`
  states what holds of quotes, fees and subscriptions as a whole.
- `tests/` runs it, with plugins registered on a ledger in memory.
- `app/` holds the contract that the ledger runs and the server's `main`.

A quote that leaves the range of `i128`, or whose next plugin is not a contract,
cannot be carried on: the library answers `None`, and the contract aborts the
invocation.
