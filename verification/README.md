# game_of_life

A Game-of-Life variant on a fixed 400 x 400 grid, written as a Verus library.

Each generation evaluates every cell at least two cells away from the left/top
edge and three away from the right/bottom edge. A cell looks at the 5 x 5
window around it: a living cell with at most `POP_MIN` or more than `POP_MAX`
living neighbours dies, a dead cell with a count in between is born. The step
first queues the changes (a `crossbeam` `SegQueue` of cell actions), then
applies them, so every cell is judged on the old grid.

Layout:

- `src/gol.rs` — cells, the grid (an `ndarray` array), the rule for one cell,
  the single-threaded step, applying queued actions, random initialisation.
- `src/cli_driver.rs` — running several generations, collecting living cells.
- `src/model.rs` — the mathematical model: grids as sequences of rows, the
  neighbourhood count, the next generation, and the proof that the queued
  actions produce it.
- `src/laws.rs` — properties across operations (read after write, border
  cells never change, values stay 0/1, an empty grid is a fixed point, the
  actions of a step may be applied in any order, living-cell listings).
- `src/cell_array.rs`, `src/action_queue.rs`, `src/random.rs` — the trusted
  wrappers around `ndarray`, `crossbeam` and `rand`.
- `app/` — the program: multithreaded step on a thread pool, plotting,
  progress bars and the terminal chart.
