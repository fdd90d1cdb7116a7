# monopolez

A Monopoly simulator whose game engine, strategies and experiments are verified with Verus.

- `src/game`: the board, cards, rulesets and game state; the engine that plays turns, landings,
  payments, auctions, trades, building and liquidation; the strategies; and what a player can
  infer about the decks from the public history (`card::belief`, `strategy::belief`) to roll
  out its decisions (`strategy::rollout`, `strategy::rollout_player`).
- `src/simulation`: simulations, tournaments, paired comparisons, strategy grids, tuning,
  monopoly analysis, branching from a decision, rollout benchmarks, and the line layout of
  checkpoints.
- `tests`: tests of the library on concrete games.
- `app`: the command-line program, which reads JSON inputs, prints reports, computes shares
  and intervals in floating point, and records and replays game traces.
