# hes_game

The decision logic of the facilitated workshop mode of Half-Earth
Socialism, verified with Verus: the expiring per-cycle political-capital
budget and what a click on a policy card does, the card deck's unlock graph
and lock explanations, the themed card groups, the moderator-facing copy,
the cycle report's records and the final debrief's history and badges.

- `src/` is the verified library (`deck`, `workshop`, `plan`, `report`,
  `ending`, with `text` and `order` for text building and sorting).
- `tests/` runs the library on concrete decks.
- `app/` holds what the library cannot: the workshop switch read from the
  environment or the page's query string, the measurements taken on the
  simulation's floating-point output, and the egui screens.
