# horsebetting

Horse races whose result is computed by a confidential circuit, with bets and
results kept in race accounts.

- `src/circuits.rs`: the race computation (winner and payouts) and its laws.
- `src/rng.rs`: the generator that draws each horse's random factor.
- `src/state.rs`: the accounts, events and errors.
- `src/horsebetting.rs`: the instructions as transitions of the accounts, and
  their laws.
- `src/arguments.rs`: the circuit's argument list, built with Arcium's builder.
- `src/le_bytes.rs`: reading little-endian words from the circuit's output.
- `app/lib.rs`: the Anchor account layouts and the handlers that load and
  store accounts, queue the computation and check its signed output.
