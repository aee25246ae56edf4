# pos_core_kernel

A point-of-sale domain kernel whose behaviour is stated in Verus contracts and
proved: identifiers, money, labels, media, calendar and time values,
schedules, supply claims, modifier trees (definitions, selections, hydration,
dehydration and pricing), catalog items, order entries, orders and derived
totals.

Layout:

- `src/text.rs`: string helpers with their specifications (trimming, digits,
  code-point order).
- `src/primitives/`: identifiers, money, labels, media, consumer profiles,
  calendar, time and schedules.
- `src/supply/`: supply targets, buckets, views and the claim ledger.
- `src/modifier/`: modifier definitions, selections, hydration and
  dehydration (`mod_round_trip.rs` proves that a dehydrated configuration
  hydrates back to itself), pricing and errors.
- `src/catalog_item/`, `src/order_item/`, `src/entry/`, `src/order/`,
  `src/totals/`: catalog items, order items and their entries, the order
  aggregate with its events, and order totals.
- `src/effect.rs`, `src/actor.rs`, `src/event.rs`: effects, actor context
  and event envelopes.
- `tests/`: executable tests of the library.

Each public function states its result in `ensures` over the views of its
arguments; public `lemma_*` proof functions state the laws that relate several
operations.

Scope: a catalog item holds a flat list of variants, each with its own price,
and is configured by choosing one variant. There are no variant dimensions,
dimension matches or default-match markers; behaviour written against such an
API has no counterpart here and no tests. Label and media resolution pick the
value whose required consumer profile is the largest one the active profile
satisfies; two equally specific matches are an ambiguity error.
