# backstop

A verified accounting core for a lending backstop: depositors insure isolated lending pools
through a waterfall of up to three tiers, and earn emissions for it.

The crate is written in Rust with [Verus](https://github.com/verus-lang/verus) contracts.
Every function states what it returns and changes, and every refusal it gives; proof functions
named `law_*` state what holds across operations.

## Layout

- `src/backstop` - pool and user balances, deposits, the withdrawal queue, donations and draws,
  clawbacks, bad-debt lots, take rates, buybacks and valuation
- `src/emissions` - streams, the reward zone, distribution, claims
- `src/migration.rs` - the hand-over from one backstop to the next, with its backfill
- `src/emitter` - the emitter: distribution, drops, conversion of the legacy token
- `src/backstop_valuation.rs`, `src/pool_factory.rs`, `src/oracle.rs`, `src/mocks` - contracts
  that the backstop works with, and stand-ins for them
- `src/math.rs`, `src/collections.rs` - fixed-point and 256-bit arithmetic, and the collections
  of the contract environment; the only files with trusted items
- `app` - the contracts around the library: storage, authorization, token calls, events
- `tests` - tests of the library

Addresses are numbers in the library; what a contract reads from tokens and other contracts
comes in as plain values. Where an operation needs a reading only in some cases, the library
asks for it in a step of its own.
