# staking

A staking module for two currencies, RING and KTON, verified with Verus.

- `src/` is the module itself. `types` and `ledger` hold its data, `state` says as mathematics what
  each call does, and `module`, `roles`, `rewards`, `eras` and `genesis` do it and are proved to.
  `calls` and `laws` state what holds of all calls together. `perbill` holds what is trusted of the
  `sp-arithmetic` crate.
- `app/` mounts the module in a runtime: it checks who calls, reads balances and the clock, carries
  out locks, deposits and rewards, and encodes the data.
- `tests/` runs the module.
