# calculator

Exact baccarat probabilities, bet registry and settlement, verified with Verus.

- `src/` is the verified library. Every probability is an exact ratio of
  counts of ordered deals from the remaining shoe (`calculation.rs`,
  `terminal.rs`, `probability.rs`); the registry of bets and their variants is
  in `bet_registry.rs`; settlement of placed bets against dealt hands, with
  exact decimal money through `rust_decimal`, is in `settlement.rs` and
  `money.rs`. Laws over these (the finished hands partition the deals, win
  and push never exceed one, every registered row is computed, settlement
  money follows the status, and more) are public proof functions beside the
  code they speak of.
- `app/` is ordinary Rust around the library: serde types, floating-point
  probability rows and expected value, the default odds table, and
  `Decimal`-facing settlement.
- `tests/` runs the library on concrete shoes and hands.
