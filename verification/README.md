# onchain_programs

The decision logic of four Solana programs, written in Verus and proved
against contracts:

- an escrow (make, take, refund) guarded by a circuit breaker whose window
  decays linearly;
- a stable-swap pool with a rate limiter, liquidity deposits and the
  authority's pause, limiter update and emergency withdrawal;
- the associated-token-account create-idempotent program;
- the associated-token-account recover-nested program.

## Layout

- `src/` is the verified library. Each instruction is a function from the
  accounts it is handed (`account::AccountInput`: address, signer flag,
  owner, lamports, data) and its instruction data to a decision: an error, or
  a plan of what to do (the new account data, the amounts to move, the bump
  to sign with). Its contract states the decision exactly, over spec
  functions of the account bytes.
  - `le`: little-endian fields in byte buffers;
  - `window`: the decaying-window arithmetic shared by both limiters;
  - `pda`: program-derived addresses (computed by `solana-address`);
  - `escrow`, `pool`, `ata`: the programs' instructions, their account
    layouts, and the laws that relate them (what a read gives back of a
    write, what a refused operation leaves, idempotence of creation).
- `tests/` runs the library on concrete accounts.
- `app/` is the runtime side: it reads the runtime's account views into
  `AccountInput`s, calls the library, and performs the decided
  cross-program invocations with the pinocchio crates.
