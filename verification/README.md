# veritasor

Verified state machines for the Veritasor attestation protocol's Soroban
contracts, written in Verus.

- `src/` — the library. Each contract is a value holding its storage; each
  entry point either refuses (an error, the storage unchanged) or moves the
  storage to its next state, with a contract stated over an abstract view.
  - `attestation` — attestations, roles, fees, multi-period ranges, disputes.
  - `snapshot` — per-`(business, period)` metric snapshots, last write wins.
  - `dao` — token-gated proposals, quorum and strict majority, expiry.
  - `staking` — attestor stakes, unbonding, slashing by the dispute contract.
  - `interface_spec` — the documented events, the documented methods and
    structs that the interface checks name, their lookups, and the result
    record of an interface consistency check.
  Laws that span several calls are public proof functions named `law_*`.
- `tests/` — the contracts' scenarios, run against the library.
- `app/` — the Soroban contracts around the library: authorization, ledger
  time, token transfers, cross-contract reads and storage.

## What is left out

- The full method and struct catalogues of the interface specification, and
  so their totals and the check that compares them with the deployed
  contracts: the specification document they come from is not part of this
  repository. `interface_spec` holds the entries that the interface checks
  name: each contract's `initialize` and `get_admin`, the attestation
  contract's documented methods, the registry's `register_provider`, and the
  `FeeConfig`, `Proposal` and `Provider` structs.
- Nonces on `initialize` and `grant_role`, and the reason and nonce on
  `revoke_attestation`: their rules are not documented here, and the library
  keeps neither nonces nor revocation reasons. The Soroban entry points in
  `app/` accept these parameters as the contracts' clients pass them.
- Events: their payloads are not documented here, so no entry point emits one.
