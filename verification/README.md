# smart_contract

A lending market in which lenders deposit an underlying asset and "loopers"
bid, per listed asset, the fixed APY they are willing to pay in a ten-tick
orderbook. The lenders' funds are split over the best bids, interest accrues
through multipliers, and every instruction says which token transfers it
needs.

Layout:

- `src/` — the verified library (Verus).
  - `state/model.rs`: the abstract model of a market (`MarketModel`,
    `BookModel`) and the specification of the split, of interest accrual and
    of the APY update, with their lemmas.
  - `state/all_assets.rs`: the market state and its operations (split,
    accrual, best offer, deltas), each proved against the model.
  - `state/lender_deposit.rs`, `state/looper_deposit.rs`: positions.
  - `utility.rs`: interest arithmetic, rescaling, transfer checks, and the
    extraction of transfers from a delta split.
  - `instructions/`: the state transition of each instruction, specified by
    an `*_outcome` function; a refused instruction changes nothing.
  - `laws.rs`: properties across functions (greedy split, monotonicity,
    deposits never withdraw, APY blend, ...).
- `tests/` — runtime tests of the library.
- `app/` — the Anchor program: accounts, clock, token transfers; it calls the
  library for every decision.
