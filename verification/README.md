# autorenewal

The Starknet ID auto-renewal service, with its rules verified by Verus.

Two programs share the library:

- the **bot** reads the domains whose auto-renewal is due, checks each
  renewer's approval, allowance and balance, prices the renewal (in ETH or in
  an altcoin through a quote) with the sales tax of the renewer's state, and
  sends `batch_renew` transactions of at most 75 domains, stopping after three
  reverted transactions;
- the **indexer** follows the naming and renewal contracts' events and keeps
  the `domains`, `auto_renewals` and `approvals` collections up to date.
  Documents carry the block from which they are valid and, once replaced,
  the block up to which they were; on a chain reorganisation the documents
  inserted after the fork are deleted and those closed after it reopened.
  (An update writes its new state into an unmarked copy of the old document,
  which this rollback leaves in place.) The library plans the rollback
  (`invalidation_plan`); the program performs it on MongoDB.

## Layout

- `src/` — the verified library.
  - `num.rs`, `text.rs`, `felt.rs`: big naturals and integers (over
    `num-bigint`), decimal and hex text, and Starknet field elements (over
    `starknet-ff`), each with a mathematical model.
  - `bot/`: pricing, eligibility of one renewal, the planner that walks the
    due renewals against a balance table, the multicall and `batch_renew`
    calldata, the renewal run (batches, nonce, receipts) and the indexer
    readiness checks.
  - `indexer/`: event keys and dispatch, the write plan of each listener,
    and the stream state machine with its invalidation plan.
- `tests/` — tests of the library on concrete values.
- `app/` — the programs: configuration, MongoDB, the Starknet node, the
  Apibara stream, Discord and the watchtower logger.

Run `autorenewal bot [config.toml]` or `autorenewal indexer [config.toml]`.
