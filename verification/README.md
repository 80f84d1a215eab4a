# dabdub_contracts

Verified state logic of the DabDub settlement contracts for Stellar
(Soroban), written in Verus.

- `src/` — the library, verified by Verus. One module per contract:
  `admin_auth`, `rbac_access`, `merchant_registry`, `platform_stats`,
  `reconciliation`, `batch_payments`. Each holds the contract's state as a
  value with a mathematical view, its operations with exact contracts over
  that view, and proof functions for the properties that span operations.
  `host` holds the two calls made into the Soroban host (SHA-256 and the XDR
  encoding of a string) behind trusted wrappers; `account` defines the
  account identifiers that stand for host addresses.
- `tests/` — tests of the library.
- `app/` — the contracts on a Soroban host: caller authentication, the
  mapping between host addresses and account identifiers, events, and
  failing with the contracts' messages.
