# rubiks_cube

A Rubik's cube model and solver whose logic is verified with Verus.

- `src/cube.rs` — faces, moves and the cube; face turns as spec functions,
  with the laws of the move algebra (a move followed by its inverse, four
  quarter turns, commuting opposite faces, undoing a sequence).
- `src/solver/` — the solver: FNV-1a cube hash and heuristic
  (`heuristic.rs`), the endgame distance table (`endgame.rs`), the
  bidirectional breadth-first search stepped one level at a time
  (`bidir.rs`), and the depth-bounded search with its iterative-deepening
  worker (`ida.rs`).
- `src/scene.rs` — what the renderer draws: stickers of each small cube,
  the layer a move turns, the pixel font.
- `src/control.rs` — the application's phases, buttons and the queue of
  solution moves being animated.
- `app/` — the windowed program (winit, wgpu): event loop, rendering,
  threads and timing around the library.
- `tests/` — tests of the library on concrete cubes.
