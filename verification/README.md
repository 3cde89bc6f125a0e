# boundless_events

The event operations of an escrow contract on a Soroban ledger, verified with Verus:
hackathons, bounties, grants and crowdfunding campaigns whose budget the contract holds
until winners claim it or the event is cancelled and refunded.

- `src/` is the library. An operation works on an `Env`, which holds what one invocation
  sees of the ledger, what it writes, whose authorization it demands and what it asks of the
  token, the event log and the profile contract. Its contract says for every input which
  error comes back, or what the environment looks like afterwards.
- `src/laws/` holds what follows for several operations together: operations are carried out
  once, events do not touch each other, the escrow on file is backed by tokens, prizes fit
  the escrow and are claimed once, a cancellation pays out the escrow and no more. Some are
  stated of any sequence of calls (`history.rs`).
- `src/host.rs` is where the library calls `soroban_sdk`, for texts, lists, the map of the
  winner distribution and hashes. What it says of these calls is not proved.
- `tests/` runs the operations against a model of the token and of the profile contract.
- `app/` connects the library to a Soroban host: it loads and writes ledger entries, demands
  authorizations, moves tokens, publishes events and calls the profile contract.
