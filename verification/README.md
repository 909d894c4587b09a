# carbon_ledger

A verified model of the CarbonLedger Soroban contracts: a project registry,
tokenized carbon credits with permanent retirement, a whole-batch
marketplace, and an oracle for monitoring data and benchmark prices.

- `src/` — the library, verified with Verus. Each contract is a value
  (`CarbonCredit`, `CarbonRegistry`, `CarbonMarketplace`, `CarbonOracle`)
  whose methods are the contract's entry points; every method's contract is
  stated over the contract's model (`@`), and each contract proves that the
  states it reaches are consistent (for credits: disjoint serial ranges,
  certificates exactly for retired batches, an exact owner index).
  `address`, `keyed` and `id_index` hold the shared address type, a keyed
  store and the per-party id lists.
- `tests/` — the contracts' scenarios and edge cases.
- `app/` — Soroban contracts around the library: authorization, storage,
  events, and the token and credit transfers a purchase settles.
