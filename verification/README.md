# vero_core_contracts

A guardian-voting contract: guardians lock tokens to earn a vote, vote on
contribution tasks until `VOTE_THRESHOLD` votes verify a task, and a verified
task can have one reward stream started for its contributor through the Drips
protocol.

- `src/types.rs` — accounts, tasks, streams, errors, and the token movements
  and requests that entry points produce.
- `src/rules.rs` — the decision of each entry point from the values it reads
  from storage, and the exact writes that follow, with exact contracts.
- `src/contract.rs` — `VeroContract`: the contract with its ledger as maps,
  kept well formed by a type invariant; each entry point states its result
  and the new ledger (`LedgerView::after` of the call), and leaves it
  unchanged when it fails.
- `src/laws.rs` — properties over any sequence of calls (one counted vote
  per guardian and task, one refund per resignation, custody matching the
  locked balances) and others spanning several calls.
- `app/` — the Soroban contract: it reads storage, asks the verified rules,
  and applies exactly the writes, transfers, request and event they return;
  authorization stays there.
