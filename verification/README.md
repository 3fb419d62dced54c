# rusty_roguelike

The rules of a small dungeon crawler, verified with Verus.

- `src/` is the library: the map and its indexing, the camera, the level generators
  (rooms, cellular automaton, random walkers) driven step by step through
  `map_builder::generation::MapGen`, the spawner, and the decisions each game system makes
  every turn. Every function there carries a contract that Verus proves. Random draws come
  from bracket-lib's generator through the trusted wrappers in `src/random.rs`; each
  function that draws has a verified counterpart that takes the drawn values and whose
  contract fixes the result exactly.
- `app/` is the game around it: the terminal, the legion world, reading the entity
  configuration, and the distance maps that level generation asks for.
- `tests/` runs the library on concrete inputs.
