# survival_core

The rules of a 2D multiplayer survival game server, verified with Verus.

- `src/` is the library: item stacks and slots, equipment, campfires and
  storage boxes, crafting and its queue, resource nodes, player state
  (jumping, respawning, registration), buffs, characters, chat. Every table
  that a rule reads or writes is a plain value here (`ItemStore` for the item
  table, `Vec`s for the others), and each public function states in its
  contract exactly what it returns and how it changes those values. Laws that
  span several calls are public proof functions (`law_*`): `refusals.rs`
  holds those that say a refused request changes nothing; the others stand
  next to the functions they speak of, among them the `*_keeps_slots_distinct`
  family (a request puts no two of a player's items into one slot, on the
  inputs each law names) and the holding laws (what adding, splitting,
  moving, crafting and cancelling do to how much of a kind a player holds),
  with the laws that adding keeps every stack within its kind's stack size
  and that quick moves into and out of containers move items rather than
  copy or lose them.
- `src/random.rs` is the only trusted code: two wrappers around
  `rand::Rng::gen_range` that promise only that the number lies in the range.
- `tests/` runs the rules on concrete rows.
- `app/` is the SpacetimeDB module around the rules: the tables, the
  reducers, the floating-point distance and collision checks, and the
  loading and saving of rows.
