# coralswap

The decision logic of a constant-product DEX on Soroban (pair, router,
dynamic fee, upgrade timelock), written in Verus with its contracts proved.

- `src/` is the verified library. Ledger addresses appear there as their
  canonical byte encodings, ordered lexicographically.
  - `arith`: `i128` range, truncating division, saturating operations, integer square root.
  - `address`: byte-string order and canonical token sorting.
  - `helpers`: swap quotes (`get_amount_out`, `get_amount_in`, `quote`), optimal deposits, path amounts.
  - `dynamic_fee`: the EMA volatility accumulator and the fee it yields.
  - `pair`: the pool model: mint, burn, single-sided exit, swap settlement, sync.
  - `router`: exact-input routing hop by hop, exact-output routing, liquidity checks.
  - `flash_loan`: the flash-loan fee, and opening and settling a loan around the borrower's callback.
  - `reentrancy`, `flash_receiver`, `upgrade`, `lp_token`, `errors`.
- `app/` holds the Soroban contracts: storage, token transfers, cross-contract
  calls and events around the library's decisions.
- `tests/` exercises the library on concrete values.
