# avago

Escrow swaps between members of a marketplace, with every decision proved in
Verus.

- `src/` is the verified library. `common` holds the asset model (what a bucket
  or vault holds, keyed by 64-bit resource keys, amounts in attos over the
  full 192-bit range of the ledger's decimals, see `amount`, and taken only in
  whole units of a resource's divisibility), the
  matching of a payment against what a swap asks for (`take_needed_assets`),
  and the accumulators that keep a swap's assets. `swap_basic`, `swap_p2p`,
  `swap_simple`, `swap_bid` and `swap_offer` are the five swap kinds, each a
  state machine whose methods either refuse (changing nothing) or say exactly
  what changes and what is handed back. `proxy` registers members and numbers
  swaps. `laws` states what holds across operations: payments move assets
  without creating or losing any, each swap ends once, bids only rise, numbers
  are handed out once and in order, a swap ends once over any run of calls.
- One exception to the first of these: an offer on `swap_offer` from a member
  who already has one replaces the earlier offer, whose assets the library no
  longer holds; what the ledger does with the overwritten entry is outside the
  library.
- `tests/` runs the library on concrete values.
- `app/` holds the Radix blueprints: they read the ledger, let the library
  decide, and then move buckets and vaults as it decided.
