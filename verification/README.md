# solana_rate_limiter

A fixed-window rate limiter for a Solana program, written in Verus.

- `src/` is the verified library: the byte layouts of the instruction and of
  the three kinds of account (`Config`, `Service`, `ClientRecord`), the
  rate-limit decision, and the handlers of the five instructions. A call is a
  small machine: `process_instruction` runs a handler up to its first outside
  work (reading the clock, creating an account), `resume` goes on with what
  that work gave, and the call ends with the new data of one account or an
  error. Each step's contract says exactly what it returns.
- `app/` is the on-chain entrypoint: it reads the accounts, performs the
  clock reads and account creations the library asks for, and stores the data
  it returns.
- `tests/` drives whole calls through the machine and compares the layouts
  with borsh's encoding.
