//! The mathematical model of the game: grids as sequences of rows of
//! `(value, age)` pairs, the neighbourhood rule, and the actions a generation
//! step produces.
use crate::gol::{HEIGHT, POP_MAX, POP_MIN, WIDTH};
use vstd::prelude::*;

verus! {

/// A cell as `(value, age)`.
pub type CellView = (u32, u32);

/// A grid as its rows; `g[x][y]` is the cell at index `[x, y]`.
pub type GridView = Seq<Seq<CellView>>;

/// An action as `(x, y, new_age, new_value)`.
pub type ActionView = (usize, usize, u32, u32);

/// The grid has `HEIGHT` rows of `WIDTH` cells.
pub open spec fn shape_ok(g: GridView) -> bool {
    &&& g.len() == HEIGHT
    &&& forall|i: int| 0 <= i < g.len() ==> #[trigger] g[i].len() == WIDTH
}

/// The cells a generation step evaluates: `x` in `2..WIDTH - 3`, `y` in
/// `2..HEIGHT - 3`.
pub open spec fn in_interior(x: int, y: int) -> bool {
    2 <= x < WIDTH - 3 && 2 <= y < HEIGHT - 3
}

/// The position of the interior cell `(x, y)` when the interior is read
/// column by column.
pub open spec fn interior_index(x: int, y: int) -> int {
    (x - 2) * (HEIGHT - 5) + (y - 2)
}

/// The number of cells a step evaluates.
pub open spec fn interior_cell_count() -> int {
    (WIDTH - 5) * (HEIGHT - 5)
}

/// Whether the cell at offset `(dx, dy)` from `(x, y)` is a living neighbour
/// (value other than 0); the cell itself is not its own neighbour.
pub open spec fn neighbour_contrib(g: GridView, x: int, y: int, dx: int, dy: int) -> nat {
    if !(dx == 0 && dy == 0) && g[x + dx][y + dy].0 != 0 {
        1
    } else {
        0
    }
}

/// Living neighbours in row offset `dx`, at column offsets `-2 .. -2 + n`.
pub open spec fn row_count(g: GridView, x: int, y: int, dx: int, n: nat) -> nat
    decreases n,
{
    if n == 0 {
        0
    } else {
        row_count(g, x, y, dx, (n - 1) as nat) + neighbour_contrib(g, x, y, dx, n - 3)
    }
}

/// Living neighbours in row offsets `-2 .. -2 + m`, each over column offsets
/// `-2..=2`.
pub open spec fn window_count(g: GridView, x: int, y: int, m: nat) -> nat
    decreases m,
{
    if m == 0 {
        0
    } else {
        window_count(g, x, y, (m - 1) as nat) + row_count(g, x, y, m - 3, 5)
    }
}

/// The number of living cells in the 5x5 window centred on `(x, y)`, the
/// centre excluded.
pub open spec fn neighbour_count(g: GridView, x: int, y: int) -> nat {
    window_count(g, x, y, 5)
}

/// The action the rule emits for the cell `(x, y)`: a living cell with at most
/// `POP_MIN` or more than `POP_MAX` living neighbours dies, a dead cell with
/// more than `POP_MIN` and at most `POP_MAX` is born; otherwise nothing.
pub open spec fn cell_action(g: GridView, x: int, y: int) -> Option<ActionView> {
    let n = neighbour_count(g, x, y);
    if n <= POP_MIN || n > POP_MAX {
        if g[x][y].0 != 0 {
            Some((x as usize, y as usize, 0u32, 0u32))
        } else {
            None
        }
    } else if g[x][y].0 == 0 {
        Some((x as usize, y as usize, 0u32, 1u32))
    } else {
        None
    }
}

/// The cell `(x, y)` of the next generation, for a cell the step evaluates.
pub open spec fn next_cell(g: GridView, x: int, y: int) -> CellView {
    let n = neighbour_count(g, x, y);
    if POP_MIN < n <= POP_MAX {
        if g[x][y].0 == 0 {
            (1u32, 0u32)
        } else {
            g[x][y]
        }
    } else if g[x][y].0 != 0 {
        (0u32, 0u32)
    } else {
        g[x][y]
    }
}

/// The next generation: every cell the step evaluates takes `next_cell`, all
/// others keep their state.
pub open spec fn next_generation(g: GridView) -> GridView {
    Seq::new(
        g.len(),
        |x: int|
            Seq::new(
                g[x].len(),
                |y: int|
                    if in_interior(x, y) {
                        next_cell(g, x, y)
                    } else {
                        g[x][y]
                    },
            ),
    )
}

/// `n` generations after `g`.
pub open spec fn generations(g: GridView, n: nat) -> GridView
    decreases n,
{
    if n == 0 {
        g
    } else {
        next_generation(generations(g, (n - 1) as nat))
    }
}

/// A sequence of zero or one action.
pub open spec fn action_seq(a: Option<ActionView>) -> Seq<ActionView> {
    match a {
        Some(v) => seq![v],
        None => Seq::empty(),
    }
}

/// The actions for column `x`, rows `2 .. 2 + n`, in that order.
pub open spec fn column_actions(g: GridView, x: int, n: nat) -> Seq<ActionView>
    decreases n,
{
    if n == 0 {
        Seq::empty()
    } else {
        column_actions(g, x, (n - 1) as nat) + action_seq(cell_action(g, x, n + 1int))
    }
}

/// The number of rows a column spans in a step.
pub open spec fn column_span() -> nat {
    (HEIGHT - 5) as nat
}

/// The number of columns a step spans.
pub open spec fn row_span() -> nat {
    (WIDTH - 5) as nat
}

/// The actions for columns `2 .. 2 + m`, column by column.
pub open spec fn grid_actions(g: GridView, m: nat) -> Seq<ActionView>
    decreases m,
{
    if m == 0 {
        Seq::empty()
    } else {
        grid_actions(g, (m - 1) as nat) + column_actions(g, m + 1int, column_span())
    }
}

/// All actions of one generation step, in the order a single-threaded step
/// queues them.
pub open spec fn generation_actions(g: GridView) -> Seq<ActionView> {
    grid_actions(g, row_span())
}

/// The grid with the cell `(x, y)` replaced by `c`.
pub open spec fn set_cell(g: GridView, x: int, y: int, c: CellView) -> GridView {
    g.update(x, g[x].update(y, c))
}

/// The grid after one action: the target cell gets the new value and age 0.
pub open spec fn apply_action(g: GridView, a: ActionView) -> GridView {
    set_cell(g, a.0 as int, a.1 as int, (a.3, 0u32))
}

/// The grid after the actions, applied front to back.
pub open spec fn apply_actions(g: GridView, acts: Seq<ActionView>) -> GridView
    decreases acts.len(),
{
    if acts.len() == 0 {
        g
    } else {
        apply_action(apply_actions(g, acts.drop_last()), acts.last())
    }
}

/// The action targets a cell of `g`.
pub open spec fn action_in_bounds(g: GridView, a: ActionView) -> bool {
    a.0 < g.len() && a.1 < g[a.0 as int].len()
}

/// Every action targets a cell of a grid of this shape.
pub open spec fn actions_in_bounds(g: GridView, acts: Seq<ActionView>) -> bool {
    forall|i: int| 0 <= i < acts.len() ==> action_in_bounds(g, #[trigger] acts[i])
}

/// The living cells `(x, y)` (value 1) of column `x`, rows `2 .. 2 + n`.
pub open spec fn living_in_column(g: GridView, x: int, n: nat) -> Seq<(usize, usize)>
    decreases n,
{
    if n == 0 {
        Seq::empty()
    } else if g[x][n + 1int].0 == 1 {
        living_in_column(g, x, (n - 1) as nat).push((x as usize, (n + 1) as usize))
    } else {
        living_in_column(g, x, (n - 1) as nat)
    }
}

/// The living cells of columns `2 .. 2 + m`, rows `2 .. 2 + n`, column by
/// column.
pub open spec fn living_cells(g: GridView, m: nat, n: nat) -> Seq<(usize, usize)>
    decreases m,
{
    if m == 0 {
        Seq::empty()
    } else {
        living_cells(g, (m - 1) as nat, n) + living_in_column(g, m + 1int, n)
    }
}


/// `next_generation` for the columns `2 .. 2 + m` and, in column `m + 2`,
/// the rows `2 .. 2 + n`; every other cell as in `g`.
pub open spec fn partial_next(g: GridView, m: nat, n: nat) -> GridView {
    Seq::new(
        g.len(),
        |x: int|
            Seq::new(
                g[x].len(),
                |y: int|
                    if in_interior(x, y) && (x < m + 2 || (x == m + 2 && y < n + 2)) {
                        next_cell(g, x, y)
                    } else {
                        g[x][y]
                    },
            ),
    )
}

/// Applying `a` and then `b` is applying `a + b`.
pub proof fn lemma_apply_concat(g: GridView, a: Seq<ActionView>, b: Seq<ActionView>)
    ensures
        apply_actions(g, a + b) == apply_actions(apply_actions(g, a), b),
    decreases b.len(),
{
    if b.len() == 0 {
        assert(a + b =~= a);
    } else {
        assert((a + b).drop_last() =~= a + b.drop_last());
        assert((a + b).last() == b.last());
        lemma_apply_concat(g, a, b.drop_last());
    }
}

/// The action for a cell the step evaluates, applied to any grid, sets that
/// cell to `next_cell`, or leaves the grid as it is where `next_cell` keeps the
/// cell.
proof fn lemma_apply_cell_action(g: GridView, h: GridView, x: int, y: int)
    requires
        shape_ok(g),
        shape_ok(h),
        in_interior(x, y),
    ensures
        apply_actions(h, action_seq(cell_action(g, x, y))) == (match cell_action(g, x, y) {
            Some(a) => set_cell(h, x, y, next_cell(g, x, y)),
            None => h,
        }),
        cell_action(g, x, y) is None ==> next_cell(g, x, y) == g[x][y],
{
    match cell_action(g, x, y) {
        Some(a) => {
            let s = action_seq(cell_action(g, x, y));
            assert(s.drop_last() =~= Seq::<ActionView>::empty());
            assert(apply_actions(h, s.drop_last()) == h);
            assert(s.last() == a);
            assert(a.0 as int == x && a.1 as int == y);
            assert((a.3, 0u32) == next_cell(g, x, y));
        },
        None => {},
    }
}

/// The actions of column `m + 2`, rows `2 .. 2 + n`, take
/// `partial_next(g, m, 0)` to `partial_next(g, m, n)`.
proof fn lemma_column(g: GridView, m: nat, n: nat)
    requires
        shape_ok(g),
        m < row_span(),
        n <= column_span(),
    ensures
        apply_actions(partial_next(g, m, 0), column_actions(g, m + 2int, n)) == partial_next(g, m, n),
    decreases n,
{
    let p0 = partial_next(g, m, 0);
    if n == 0 {
    } else {
        let prev = column_actions(g, m + 2int, (n - 1) as nat);
        let x: int = m + 2int;
        let y: int = n + 1int;
        lemma_column(g, m, (n - 1) as nat);
        lemma_apply_concat(p0, prev, action_seq(cell_action(g, x, y)));
        let pp = partial_next(g, m, (n - 1) as nat);
        assert(shape_ok(pp));
        lemma_apply_cell_action(g, pp, x, y);
        match cell_action(g, x, y) {
            Some(a) => {
                assert(set_cell(pp, x, y, next_cell(g, x, y)) =~~= partial_next(g, m, n));
            },
            None => {
                assert(pp =~~= partial_next(g, m, n));
            },
        }
    }
}

/// The actions of columns `2 .. 2 + m` take `g` to `partial_next(g, m, 0)`.
proof fn lemma_columns(g: GridView, m: nat)
    requires
        shape_ok(g),
        m <= row_span(),
    ensures
        apply_actions(g, grid_actions(g, m)) == partial_next(g, m, 0),
    decreases m,
{
    if m == 0 {
        assert(g =~~= partial_next(g, 0, 0));
    } else {
        let k = (m - 1) as nat;
        lemma_columns(g, k);
        lemma_apply_concat(g, grid_actions(g, k), column_actions(g, k + 2int, column_span()));
        lemma_column(g, k, column_span());
        assert(partial_next(g, k, column_span()) =~~= partial_next(g, m, 0));
    }
}

/// Every action of column `x`, rows `2 .. 2 + n`, targets `(x, y)` for a row
/// `y` in that range.
proof fn lemma_column_targets(g: GridView, x: int, n: nat)
    requires
        0 <= x < HEIGHT,
        n <= column_span(),
    ensures
        forall|i: int|
            0 <= i < column_actions(g, x, n).len() ==> {
                let a = #[trigger] column_actions(g, x, n)[i];
                a.0 == x && 2 <= a.1 < n + 2
            },
        forall|i: int, j: int|
            0 <= i < j < column_actions(g, x, n).len() ==> (#[trigger] column_actions(g, x, n)[i]).1
                < (#[trigger] column_actions(g, x, n)[j]).1,
    decreases n,
{
    if n > 0 {
        lemma_column_targets(g, x, (n - 1) as nat);
        let prev = column_actions(g, x, (n - 1) as nat);
        let cur = column_actions(g, x, n);
        assert forall|i: int| 0 <= i < cur.len() implies {
            let a = #[trigger] cur[i];
            a.0 == x && 2 <= a.1 < n + 2
        } by {
            if i < prev.len() {
                assert(cur[i] == prev[i]);
            }
        }
        assert forall|i: int, j: int| 0 <= i < j < cur.len() implies (#[trigger] cur[i]).1 < (
        #[trigger] cur[j]).1 by {
            assert(cur[i] == prev[i]);
            if j < prev.len() {
                assert(cur[j] == prev[j]);
            }
        }
    }
}

/// The target of `a` comes before that of `b`, column first, then row.
pub open spec fn target_less(a: ActionView, b: ActionView) -> bool {
    a.0 < b.0 || (a.0 == b.0 && a.1 < b.1)
}

/// The targets of the actions strictly increase, column first, then row.
pub open spec fn targets_increasing(acts: Seq<ActionView>) -> bool {
    forall|i: int, j: int| 0 <= i < j < acts.len() ==> target_less(#[trigger] acts[i], #[trigger] acts[j])
}

/// No two actions target the same cell.
pub open spec fn distinct_targets(acts: Seq<ActionView>) -> bool {
    forall|i: int, j: int|
        0 <= i < acts.len() && 0 <= j < acts.len() && i != j ==> ((#[trigger] acts[i]).0 != (
        #[trigger] acts[j]).0 || acts[i].1 != acts[j].1)
}

/// Some action targets the cell `(x, y)`.
pub open spec fn targets_cell(acts: Seq<ActionView>, x: int, y: int) -> bool {
    exists|i: int| 0 <= i < acts.len() && (#[trigger] acts[i]).0 == x && acts[i].1 == y
}

/// Applying actions with distinct targets sets each target cell to its
/// action's value with age 0 and leaves every other cell as it was.
pub proof fn lemma_apply_distinct(g: GridView, acts: Seq<ActionView>)
    requires
        shape_ok(g),
        actions_in_bounds(g, acts),
        distinct_targets(acts),
    ensures
        shape_ok(apply_actions(g, acts)),
        forall|i: int|
            0 <= i < acts.len() ==> apply_actions(g, acts)[(#[trigger] acts[i]).0 as int][acts[i].1 as int]
                == (acts[i].3, 0u32),
        forall|x: int, y: int|
            0 <= x < HEIGHT && 0 <= y < WIDTH && !targets_cell(acts, x, y) ==> #[trigger] apply_actions(
                g,
                acts,
            )[x][y] == g[x][y],
    decreases acts.len(),
{
    if acts.len() > 0 {
        let prev = acts.drop_last();
        let a = acts.last();
        assert forall|i: int| 0 <= i < prev.len() implies action_in_bounds(g, #[trigger] prev[i]) by {
            assert(prev[i] == acts[i]);
        }
        assert forall|i: int, j: int|
            0 <= i < prev.len() && 0 <= j < prev.len() && i != j implies ((#[trigger] prev[i]).0 != (
        #[trigger] prev[j]).0 || prev[i].1 != prev[j].1) by {
            assert(prev[i] == acts[i]);
            assert(prev[j] == acts[j]);
        }
        lemma_apply_distinct(g, prev);
        let r0 = apply_actions(g, prev);
        let r = apply_actions(g, acts);
        assert(action_in_bounds(g, acts[acts.len() - 1]));
        assert(r == set_cell(r0, a.0 as int, a.1 as int, (a.3, 0u32)));
        assert forall|k: int| 0 <= k < r.len() implies #[trigger] r[k].len() == WIDTH by {
            if k != a.0 {
                assert(r[k] == r0[k]);
            }
        }
        assert forall|i: int| 0 <= i < acts.len() implies r[(#[trigger] acts[i]).0 as int][acts[i].1 as int]
            == (acts[i].3, 0u32) by {
            if i < acts.len() - 1 {
                assert(prev[i] == acts[i]);
                assert(acts[i].0 != a.0 || acts[i].1 != a.1);
                assert(action_in_bounds(g, acts[i]));
            }
        }
        assert forall|x: int, y: int|
            0 <= x < HEIGHT && 0 <= y < WIDTH && !targets_cell(acts, x, y) implies #[trigger] r[x][y]
            == g[x][y] by {
            if targets_cell(prev, x, y) {
                let i = choose|i: int| 0 <= i < prev.len() && (#[trigger] prev[i]).0 == x && prev[i].1 == y;
                assert(acts[i] == prev[i]);
            }
            assert(acts[acts.len() - 1] == a);
            assert(!(a.0 == x && a.1 == y));
        }
    }
}

/// Every action of columns `2 .. 2 + m` targets a cell the step evaluates.
proof fn lemma_grid_targets(g: GridView, m: nat)
    requires
        m <= row_span(),
    ensures
        forall|i: int|
            0 <= i < grid_actions(g, m).len() ==> {
                let a = #[trigger] grid_actions(g, m)[i];
                in_interior(a.0 as int, a.1 as int) && a.0 < m + 2
            },
        targets_increasing(grid_actions(g, m)),
    decreases m,
{
    if m > 0 {
        let k = (m - 1) as nat;
        lemma_grid_targets(g, k);
        lemma_column_targets(g, k + 2int, column_span());
        let prev = grid_actions(g, k);
        let col = column_actions(g, k + 2int, column_span());
        let cur = grid_actions(g, m);
        assert forall|i: int| 0 <= i < cur.len() implies {
            let a = #[trigger] cur[i];
            in_interior(a.0 as int, a.1 as int) && a.0 < m + 2
        } by {
            if i < prev.len() {
                assert(cur[i] == prev[i]);
            } else {
                assert(cur[i] == col[i - prev.len()]);
            }
        }
        assert forall|i: int, j: int| 0 <= i < j < cur.len() implies target_less(
            #[trigger] cur[i],
            #[trigger] cur[j],
        ) by {
            if j < prev.len() {
                assert(cur[i] == prev[i]);
                assert(cur[j] == prev[j]);
            } else if i < prev.len() {
                assert(cur[i] == prev[i]);
                assert(cur[j] == col[j - prev.len()]);
            } else {
                assert(cur[i] == col[i - prev.len()]);
                assert(cur[j] == col[j - prev.len()]);
            }
        }
    }
}

/// One step's actions target only cells the step evaluates, and applied in
/// order they take a grid to its next generation.
pub proof fn lemma_generation_actions(g: GridView)
    requires
        shape_ok(g),
    ensures
        forall|i: int|
            0 <= i < generation_actions(g).len() ==> in_interior(
                #[trigger] generation_actions(g)[i].0 as int,
                generation_actions(g)[i].1 as int,
            ),
        actions_in_bounds(g, generation_actions(g)),
        targets_increasing(generation_actions(g)),
        apply_actions(g, generation_actions(g)) == next_generation(g),
{
    lemma_grid_targets(g, row_span());
    lemma_columns(g, row_span());
    assert(partial_next(g, row_span(), 0) =~~= next_generation(g));
    let acts = generation_actions(g);
    assert forall|i: int| 0 <= i < acts.len() implies action_in_bounds(g, #[trigger] acts[i]) by {
        let a = acts[i];
        assert(in_interior(a.0 as int, a.1 as int));
        assert(g[a.0 as int].len() == WIDTH);
    }
}

/// The next generation has the shape of the grid.
pub proof fn lemma_next_generation_shape(g: GridView)
    requires
        shape_ok(g),
    ensures
        shape_ok(next_generation(g)),
{
}


/// The number of indices in `2..e`.
pub open spec fn span_from_two(e: int) -> nat {
    if e >= 2 {
        (e - 2) as nat
    } else {
        0
    }
}

/// With no rows to look at, no living cell is collected.
pub proof fn lemma_living_cells_no_rows(g: GridView, m: nat)
    ensures
        living_cells(g, m, 0) == Seq::<(usize, usize)>::empty(),
    decreases m,
{
    if m > 0 {
        lemma_living_cells_no_rows(g, (m - 1) as nat);
        assert(living_cells(g, (m - 1) as nat, 0) + living_in_column(g, m + 1int, 0) =~= Seq::<
            (usize, usize),
        >::empty());
    }
}

} // verus!
