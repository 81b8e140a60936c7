# Cheese Pay

The ledger of a custodial USDC wallet on Stellar: usernames, balances, transfers
with a fee, and payment links, verified with Verus.

The contract holds users' USDC. Its admin, a backend service, registers users,
books the USDC that arrives, and asks for transfers, payments and withdrawals.
Most of these only move balances inside the contract; a withdrawal, a fee and a
sweep of what nobody owns send USDC out.

## Layout

- `src/` decides. A `CheesePay` value holds storage entries; each request takes
  it and an `Env`, which knows the current ledger, and answers with `Ok` or an
  `Error`. What is to happen on the chain, from the demand for a signature to the
  transfer of USDC, is added to the `Env` as a list of `Action`s, in order.
  - `state.rs` is the mathematical model; beside each request of `users.rs`,
    `funds.rs`, `paylinks.rs` and `admin.rs` stands a specification function that
    says what the request answers, what storage it leaves and what it asks for.
  - `queries.rs` holds the read-only calls, `guards.rs` the tests of whether a
    request can run to its end.
  - `soundness.rs` and `laws/` hold what is true of all requests together.
- `app/` is the Soroban contract: it loads the entries that a request is about,
  calls the library, and performs the actions.
- `tests/` runs the library.

## What is proved

- Each request does exactly what its specification function says, for every
  input on which it can run to its end, and never overflows or panics there.
- Every request keeps the storage in order: usernames and addresses are bound one
  to one, no balance is negative, the running total is the sum of all balances,
  and a payment link is never both paid and cancelled.
- The running total follows the USDC that comes in and goes out, so that the
  contract stays solvent.
- A deposit id is credited once, a payment link is paid once, and a link that is
  paid or cancelled never changes again. As ledgers never fall, a link is paid
  between its creation and its last ledger.
- A refused request changes nothing; nothing is granted without a signature.
- A request is decided by the entries that it names, so that the others need not
  be loaded, and performing its actions brings about the storage it leaves.

A request cannot run to its end where an entry to be renewed is missing, where the
address of the USDC token is needed and missing, or where a number does not fit
into 128 bits. The guards tell such requests beforehand.

Amounts are in stroops, of which 10_000_000 are one USDC. The fee rate is in basis
points and is at most 500, that is 5 %.
