# mango

The rules of a cross-margin lending group: deposits, borrows, orders on a spot
exchange and liquidation, over fixed-point balances. The rules are written and
proved in Verus.

- `src/` holds the library. Each handler of `Processor` takes the accounts of a
  request as plain records and returns what the request leads to, or a `Failure`.
  What a handler returns is stated by a spec function of the same module, and what
  holds across handlers is proved in `src/laws.rs`.
- Work that has to happen elsewhere is an `Invocation`. A deposit, a liquidation
  and a settlement of funds go on with the reply to it.
- `tests/` runs the library on concrete requests.
- `app/` is the program around the library: it reads accounts, makes the
  invocations and stores the results.

Fixed-point arithmetic, the token program, the exchange, the clock, the rent and
derived addresses come from `fixed`, `spl-token`, `serum_dex` and
`solana-program`. The functions that call them are marked
`#[verifier::external_body]`, and their doc comments say what is believed of the
call.
