//! Properties of the game that span its operations.
use crate::gol::{HEIGHT, WIDTH};
use crate::model::{
    action_seq, cell_action,
    actions_in_bounds, apply_actions, distinct_targets, generation_actions, lemma_apply_distinct,
    lemma_generation_actions, target_less, targets_cell, ActionView, generations, in_interior, lemma_next_generation_shape, living_cells, living_in_column,
    neighbour_count, neighbour_contrib, next_cell, next_generation, row_count, set_cell, shape_ok,
    window_count, CellView, GridView,
};
use vstd::prelude::*;

verus! {

/// Reading a cell just written gives the written cell; every other cell keeps
/// its state, and the grid keeps its shape.
pub proof fn law_get_after_set(g: GridView, x: int, y: int, c: CellView, i: int, j: int)
    requires
        shape_ok(g),
        0 <= x < HEIGHT,
        0 <= y < WIDTH,
        0 <= i < HEIGHT,
        0 <= j < WIDTH,
    ensures
        shape_ok(set_cell(g, x, y, c)),
        set_cell(g, x, y, c)[x][y] == c,
        (i != x || j != y) ==> set_cell(g, x, y, c)[i][j] == g[i][j],
{
    let h = set_cell(g, x, y, c);
    assert forall|k: int| 0 <= k < h.len() implies #[trigger] h[k].len() == WIDTH by {
        if k != x {
            assert(h[k] == g[k]);
        }
    }
}

/// Cells outside the part of the grid a step evaluates never change, over any
/// number of generations, and the grid keeps its shape.
pub proof fn law_border_never_changes(g: GridView, n: nat, x: int, y: int)
    requires
        shape_ok(g),
        0 <= x < HEIGHT,
        0 <= y < WIDTH,
        !in_interior(x, y),
    ensures
        shape_ok(generations(g, n)),
        generations(g, n)[x][y] == g[x][y],
    decreases n,
{
    if n > 0 {
        law_border_never_changes(g, (n - 1) as nat, x, y);
        lemma_next_generation_shape(generations(g, (n - 1) as nat));
    }
}

/// Every cell holds value 0 or 1.
pub open spec fn values_binary(g: GridView) -> bool {
    forall|x: int, y: int| 0 <= x < g.len() && 0 <= y < g[x].len() ==> #[trigger] g[x][y].0 <= 1
}

/// If every cell holds 0 or 1, so does every later generation.
pub proof fn law_values_stay_binary(g: GridView, n: nat)
    requires
        shape_ok(g),
        values_binary(g),
    ensures
        values_binary(generations(g, n)),
    decreases n,
{
    if n > 0 {
        let p = generations(g, (n - 1) as nat);
        law_values_stay_binary(g, (n - 1) as nat);
        law_border_never_changes(g, (n - 1) as nat, 0, 0);
        let q = next_generation(p);
        assert forall|x: int, y: int| 0 <= x < q.len() && 0 <= y < q[x].len() implies #[trigger] q[x][y].0
            <= 1 by {
            assert(p[x][y].0 <= 1);
        }
    }
}

/// Every cell is dead (value 0).
pub open spec fn all_dead(g: GridView) -> bool {
    forall|x: int, y: int| 0 <= x < g.len() && 0 <= y < g[x].len() ==> #[trigger] g[x][y].0 == 0
}

/// The cell at offset `(dx, dy)` from `(x, y)`.
pub open spec fn offset_cell(g: GridView, x: int, y: int, dx: int, dy: int) -> CellView {
    g[x + dx][y + dy]
}

/// Every cell of the 5x5 window around `(x, y)`, the centre excluded, is dead.
pub open spec fn window_dead(g: GridView, x: int, y: int) -> bool {
    forall|dx: int, dy: int|
        -2 <= dx <= 2 && -2 <= dy <= 2 && !(dx == 0 && dy == 0) ==> (#[trigger] offset_cell(
            g,
            x,
            y,
            dx,
            dy,
        )).0 == 0
}

/// 1 for a living cell, 0 for a dead one.
pub open spec fn living(c: CellView) -> int {
    if c.0 != 0 {
        1
    } else {
        0
    }
}

proof fn lemma_dead_row(g: GridView, x: int, y: int, dx: int, n: nat)
    requires
        shape_ok(g),
        window_dead(g, x, y),
        2 <= x < HEIGHT - 2,
        2 <= y < WIDTH - 2,
        -2 <= dx <= 2,
        n <= 5,
    ensures
        row_count(g, x, y, dx, n) == 0,
    decreases n,
{
    if n > 0 {
        lemma_dead_row(g, x, y, dx, (n - 1) as nat);
        if !(dx == 0 && n - 3 == 0) {
            assert(offset_cell(g, x, y, dx, n - 3).0 == 0);
        }
        assert(neighbour_contrib(g, x, y, dx, n - 3) == 0);
    }
}

proof fn lemma_dead_window(g: GridView, x: int, y: int, m: nat)
    requires
        shape_ok(g),
        window_dead(g, x, y),
        2 <= x < HEIGHT - 2,
        2 <= y < WIDTH - 2,
        m <= 5,
    ensures
        window_count(g, x, y, m) == 0,
    decreases m,
{
    if m > 0 {
        lemma_dead_window(g, x, y, (m - 1) as nat);
        lemma_dead_row(g, x, y, m - 3, 5);
    }
}

/// A cell whose 5x5 window (centre excluded) holds no living cell has no
/// living neighbour.
pub proof fn law_neighbour_count_dead_window(g: GridView, x: int, y: int)
    requires
        shape_ok(g),
        2 <= x < HEIGHT - 2,
        2 <= y < WIDTH - 2,
        window_dead(g, x, y),
    ensures
        neighbour_count(g, x, y) == 0,
{
    lemma_dead_window(g, x, y, 5);
}

proof fn lemma_row_one_change(
    g: GridView,
    x: int,
    y: int,
    dx: int,
    n: nat,
    i: int,
    j: int,
    c: CellView,
)
    requires
        shape_ok(g),
        2 <= x < HEIGHT - 2,
        2 <= y < WIDTH - 2,
        -2 <= dx <= 2,
        n <= 5,
        0 <= i < HEIGHT,
        0 <= j < WIDTH,
    ensures
        row_count(set_cell(g, i, j, c), x, y, dx, n) == row_count(g, x, y, dx, n) + (if i == x + dx
            && -2 <= j - y < n - 2 && !(i == x && j == y) {
            living(c) - living(g[i][j])
        } else {
            0
        }),
    decreases n,
{
    if n > 0 {
        let h = set_cell(g, i, j, c);
        lemma_row_one_change(g, x, y, dx, (n - 1) as nat, i, j, c);
        let dy = n - 3;
        assert(h[x + dx][y + dy] == if x + dx == i && y + dy == j {
            c
        } else {
            g[x + dx][y + dy]
        });
    }
}

proof fn lemma_window_one_change(g: GridView, x: int, y: int, m: nat, i: int, j: int, c: CellView)
    requires
        shape_ok(g),
        2 <= x < HEIGHT - 2,
        2 <= y < WIDTH - 2,
        m <= 5,
        0 <= i < HEIGHT,
        0 <= j < WIDTH,
    ensures
        window_count(set_cell(g, i, j, c), x, y, m) == window_count(g, x, y, m) + (if -2 <= i - x < m
            - 2 && -2 <= j - y <= 2 && !(i == x && j == y) {
            living(c) - living(g[i][j])
        } else {
            0
        }),
    decreases m,
{
    if m > 0 {
        lemma_window_one_change(g, x, y, (m - 1) as nat, i, j, c);
        lemma_row_one_change(g, x, y, m - 3, 5, i, j, c);
    }
}

/// Changing one cell changes a cell's living-neighbour count by exactly the
/// change in that cell's liveness when it lies in the 5x5 window around it
/// (and is not the cell itself), and leaves the count alone otherwise.
/// Together with `law_neighbour_count_dead_window` this fixes the count of
/// every grid: it is the number of living cells among the 24 others of the
/// window.
pub proof fn law_neighbour_count_one_change(g: GridView, x: int, y: int, i: int, j: int, c: CellView)
    requires
        shape_ok(g),
        2 <= x < HEIGHT - 2,
        2 <= y < WIDTH - 2,
        0 <= i < HEIGHT,
        0 <= j < WIDTH,
    ensures
        neighbour_count(set_cell(g, i, j, c), x, y) == neighbour_count(g, x, y) + (if -2 <= i - x <= 2
            && -2 <= j - y <= 2 && !(i == x && j == y) {
            living(c) - living(g[i][j])
        } else {
            0
        }),
{
    lemma_window_one_change(g, x, y, 5, i, j, c);
}

/// A grid with no living cell stays as it is.
pub proof fn law_dead_grid_is_fixed(g: GridView)
    requires
        shape_ok(g),
        all_dead(g),
    ensures
        next_generation(g) == g,
{
    let q = next_generation(g);
    assert forall|x: int| 0 <= x < q.len() implies #[trigger] q[x] =~= g[x] by {
        assert forall|y: int| 0 <= y < q[x].len() implies #[trigger] q[x][y] == g[x][y] by {
            if in_interior(x, y) {
                assert forall|dx: int, dy: int|
                    -2 <= dx <= 2 && -2 <= dy <= 2 && !(dx == 0 && dy == 0) implies (
                #[trigger] offset_cell(g, x, y, dx, dy)).0 == 0 by {
                    assert(g[x + dx][y + dy].0 == 0);
                }
                lemma_dead_window(g, x, y, 5);
                assert(g[x][y].0 == 0);
                assert(neighbour_count(g, x, y) == 0);
            }
        }
    }
    assert(q =~= g);
}

/// The cell that `next_cell` gives is `(1, 0)` (born), `(0, 0)` (died), or the
/// cell as it was.
pub proof fn law_next_cell_cases(g: GridView, x: int, y: int)
    ensures
        next_cell(g, x, y) == (1u32, 0u32) || next_cell(g, x, y) == (0u32, 0u32) || next_cell(g, x, y)
            == g[x][y],
        g[x][y].0 == 0 && next_cell(g, x, y).0 != 0 ==> 2 < neighbour_count(g, x, y) <= 5,
        g[x][y].0 != 0 && next_cell(g, x, y).0 == 0 ==> (neighbour_count(g, x, y) <= 2
            || neighbour_count(g, x, y) > 5),
{
}

/// `(x, y)` is among the collected living cells exactly when it lies in the
/// collected range and holds value 1.
pub proof fn law_living_cells_members(g: GridView, m: nat, n: nat, x: usize, y: usize)
    requires
        shape_ok(g),
        m + 2 <= HEIGHT,
        n + 2 <= WIDTH,
    ensures
        living_cells(g, m, n).contains((x, y)) <==> (2 <= x < m + 2 && 2 <= y < n + 2 && g[x as int][y as int].0
            == 1),
    decreases m,
{
    if m > 0 {
        let k = (m - 1) as nat;
        law_living_cells_members(g, k, n, x, y);
        lemma_column_members(g, m + 1int, n, x, y);
        let a = living_cells(g, k, n);
        let b = living_in_column(g, m + 1int, n);
        if (a + b).contains((x, y)) {
            let i = choose|i: int| 0 <= i < (a + b).len() && (a + b)[i] == (x, y);
            if i < a.len() {
                assert(a[i] == (x, y));
            } else {
                assert(b[i - a.len()] == (x, y));
            }
        }
        if a.contains((x, y)) {
            let i = choose|i: int| 0 <= i < a.len() && a[i] == (x, y);
            assert((a + b)[i] == (x, y));
        }
        if b.contains((x, y)) {
            let i = choose|i: int| 0 <= i < b.len() && b[i] == (x, y);
            assert((a + b)[a.len() + i] == (x, y));
        }
    }
}

proof fn lemma_column_members(g: GridView, c: int, n: nat, x: usize, y: usize)
    requires
        shape_ok(g),
        0 <= c < HEIGHT,
        n + 2 <= WIDTH,
    ensures
        living_in_column(g, c, n).contains((x, y)) <==> (x == c && 2 <= y < n + 2 && g[x as int][y as int].0
            == 1),
    decreases n,
{
    if n > 0 {
        let k = (n - 1) as nat;
        lemma_column_members(g, c, k, x, y);
        let p = living_in_column(g, c, k);
        if g[c][n + 1int].0 == 1 {
            let q = p.push((c as usize, (n + 1) as usize));
            if q.contains((x, y)) {
                let i = choose|i: int| 0 <= i < q.len() && q[i] == (x, y);
                if i < p.len() {
                    assert(p[i] == (x, y));
                }
            }
            if p.contains((x, y)) {
                let i = choose|i: int| 0 <= i < p.len() && p[i] == (x, y);
                assert(q[i] == (x, y));
            }
            assert(q[p.len() as int] == (c as usize, (n + 1) as usize));
        }
    }
}


/// The actions of one step may be applied in any order: any sequence holding
/// the same actions (the same multiset) as the single-threaded step queues
/// takes the grid to its next generation.  This is what lets worker threads
/// push their actions in whatever order they finish.
pub proof fn law_step_actions_in_any_order(g: GridView, acts: Seq<ActionView>)
    requires
        shape_ok(g),
        acts.to_multiset() == generation_actions(g).to_multiset(),
    ensures
        actions_in_bounds(g, acts),
        apply_actions(g, acts) == next_generation(g),
{
    broadcast use vstd::seq_lib::to_multiset_contains;
    broadcast use vstd::multiset::group_multiset_axioms;

    let base = generation_actions(g);
    lemma_generation_actions(g);
    assert forall|i: int, j: int|
        0 <= i < base.len() && 0 <= j < base.len() && i != j implies ((#[trigger] base[i]).0 != (
    #[trigger] base[j]).0 || base[i].1 != base[j].1) by {
        if i < j {
            assert(target_less(base[i], base[j]));
        } else {
            assert(target_less(base[j], base[i]));
        }
    }
    assert(distinct_targets(base));
    assert(base.no_duplicates());
    base.lemma_multiset_has_no_duplicates();
    assert forall|a: ActionView| acts.to_multiset().contains(a) implies acts.to_multiset().count(a)
        == 1 by {
        assert(base.to_multiset().contains(a));
    }
    acts.lemma_multiset_has_no_duplicates_conv();
    assert forall|i: int| 0 <= i < acts.len() implies #[trigger] base.contains(acts[i]) by {
        assert(acts.contains(acts[i]));
        assert(acts.to_multiset().count(acts[i]) > 0);
        assert(base.to_multiset().count(acts[i]) > 0);
    }
    assert forall|i: int| 0 <= i < base.len() implies #[trigger] acts.contains(base[i]) by {
        assert(base.contains(base[i]));
        assert(base.to_multiset().count(base[i]) > 0);
        assert(acts.to_multiset().count(base[i]) > 0);
    }
    assert forall|i: int| 0 <= i < acts.len() implies crate::model::action_in_bounds(
        g,
        #[trigger] acts[i],
    ) by {
        assert(base.contains(acts[i]));
        let p = choose|p: int| 0 <= p < base.len() && base[p] == acts[i];
        assert(crate::model::action_in_bounds(g, base[p]));
    }
    assert forall|i: int, j: int|
        0 <= i < acts.len() && 0 <= j < acts.len() && i != j implies ((#[trigger] acts[i]).0 != (
    #[trigger] acts[j]).0 || acts[i].1 != acts[j].1) by {
        assert(base.contains(acts[i]));
        assert(base.contains(acts[j]));
        let p = choose|p: int| 0 <= p < base.len() && base[p] == acts[i];
        let q = choose|q: int| 0 <= q < base.len() && base[q] == acts[j];
        if acts[i].0 == acts[j].0 && acts[i].1 == acts[j].1 {
            assert(p == q);
            assert(acts[i] == acts[j]);
        }
    }
    lemma_apply_distinct(g, base);
    lemma_apply_distinct(g, acts);
    let r1 = apply_actions(g, base);
    let r2 = apply_actions(g, acts);
    assert forall|x: int| 0 <= x < r1.len() implies #[trigger] r1[x] =~= r2[x] by {
        assert forall|y: int| 0 <= y < r1[x].len() implies #[trigger] r1[x][y] == r2[x][y] by {
            assert(r1[x].len() == WIDTH);
            if targets_cell(base, x, y) {
                let p = choose|p: int| 0 <= p < base.len() && (#[trigger] base[p]).0 == x && base[p].1 == y;
                assert(acts.contains(base[p]));
                let q = choose|q: int| 0 <= q < acts.len() && acts[q] == base[p];
                assert(r1[base[p].0 as int][base[p].1 as int] == (base[p].3, 0u32));
                assert(r2[acts[q].0 as int][acts[q].1 as int] == (acts[q].3, 0u32));
            } else {
                if targets_cell(acts, x, y) {
                    let q = choose|q: int| 0 <= q < acts.len() && (#[trigger] acts[q]).0 == x && acts[q].1 == y;
                    assert(base.contains(acts[q]));
                    let p = choose|p: int| 0 <= p < base.len() && base[p] == acts[q];
                    assert(base[p].0 == x && base[p].1 == y);
                }
                assert(r1[x][y] == g[x][y]);
                assert(r2[x][y] == g[x][y]);
            }
        }
    }
    assert(r1 =~= r2);
}


/// Running `a` generations and then `b` more is running `a + b`.
pub proof fn law_generations_compose(g: GridView, a: nat, b: nat)
    ensures
        generations(generations(g, a), b) == generations(g, a + b),
    decreases b,
{
    if b > 0 {
        law_generations_compose(g, a, (b - 1) as nat);
        assert((a + b - 1) as nat == a + (b - 1) as nat);
    }
}

/// The collected living cells come column by column and, within a column, by
/// increasing row; so no cell comes twice.
pub proof fn law_living_cells_sorted(g: GridView, m: nat, n: nat)
    requires
        shape_ok(g),
        m + 2 <= HEIGHT,
        n + 2 <= WIDTH,
    ensures
        forall|i: int, j: int|
            0 <= i < j < living_cells(g, m, n).len() ==> cell_less(
                #[trigger] living_cells(g, m, n)[i],
                #[trigger] living_cells(g, m, n)[j],
            ),
        living_cells(g, m, n).no_duplicates(),
    decreases m,
{
    let r = living_cells(g, m, n);
    if m > 0 {
        let k = (m - 1) as nat;
        law_living_cells_sorted(g, k, n);
        lemma_column_sorted(g, m + 1int, n);
        let a = living_cells(g, k, n);
        let b = living_in_column(g, m + 1int, n);
        assert forall|i: int| 0 <= i < a.len() implies (#[trigger] a[i]).0 < m + 1 by {
            law_living_cells_members(g, k, n, a[i].0, a[i].1);
            assert(a.contains(a[i]));
        }
        assert forall|i: int, j: int| 0 <= i < j < r.len() implies cell_less(
            #[trigger] r[i],
            #[trigger] r[j],
        ) by {
            if j < a.len() {
                assert(r[i] == a[i] && r[j] == a[j]);
            } else if i < a.len() {
                assert(r[i] == a[i] && r[j] == b[j - a.len()]);
            } else {
                assert(r[i] == b[i - a.len()] && r[j] == b[j - a.len()]);
            }
        }
    }
    assert forall|i: int, j: int| 0 <= i < r.len() && 0 <= j < r.len() && i != j implies r[i] != r[j] by {
        if i < j {
            assert(cell_less(r[i], r[j]));
        } else {
            assert(cell_less(r[j], r[i]));
        }
    }
}

/// `a` comes before `b`: lower column, or the same column and lower row.
pub open spec fn cell_less(a: (usize, usize), b: (usize, usize)) -> bool {
    a.0 < b.0 || (a.0 == b.0 && a.1 < b.1)
}

proof fn lemma_column_sorted(g: GridView, c: int, n: nat)
    requires
        shape_ok(g),
        0 <= c < HEIGHT,
        n + 2 <= WIDTH,
    ensures
        forall|i: int|
            0 <= i < living_in_column(g, c, n).len() ==> (#[trigger] living_in_column(g, c, n)[i]).0 == c
                && living_in_column(g, c, n)[i].1 < n + 2,
        forall|i: int, j: int|
            0 <= i < j < living_in_column(g, c, n).len() ==> (#[trigger] living_in_column(g, c, n)[i]).1
                < (#[trigger] living_in_column(g, c, n)[j]).1,
    decreases n,
{
    if n > 0 {
        let k = (n - 1) as nat;
        lemma_column_sorted(g, c, k);
        let p = living_in_column(g, c, k);
        let q = living_in_column(g, c, n);
        if g[c][n + 1int].0 == 1 {
            let e = (c as usize, (n + 1) as usize);
            assert(q == p.push(e));
            assert forall|i: int| 0 <= i < q.len() implies (#[trigger] q[i]).0 == c && q[i].1 < n + 2 by {
                if i < p.len() {
                    assert(q[i] == p[i]);
                }
            }
            assert forall|i: int, j: int| 0 <= i < j < q.len() implies (#[trigger] q[i]).1 < (
            #[trigger] q[j]).1 by {
                assert(q[i] == p[i]);
                if j < p.len() {
                    assert(q[j] == p[j]);
                }
            }
        } else {
            assert(q == p);
        }
    }
}


/// What the rule does to one cell, by its number `n` of living neighbours in
/// the 5x5 window: a dead cell with `2 < n <= 5` gets exactly one action,
/// making it value 1 with age 0; a living cell with `n <= 2` or `n > 5` gets
/// exactly one action, making it value 0 with age 0; every other cell gets no
/// action.  These are the actions `gol_algorithm_multithreaded` queues.
pub proof fn law_cell_rule(g: GridView, x: int, y: int)
    requires
        0 <= x < HEIGHT,
        0 <= y < WIDTH,
    ensures
        g[x][y].0 == 0 && 2 < neighbour_count(g, x, y) <= 5 ==> action_seq(cell_action(g, x, y))
            == seq![(x as usize, y as usize, 0u32, 1u32)],
        g[x][y].0 != 0 && (neighbour_count(g, x, y) <= 2 || neighbour_count(g, x, y) > 5)
            ==> action_seq(cell_action(g, x, y)) == seq![(x as usize, y as usize, 0u32, 0u32)],
        g[x][y].0 == 0 && !(2 < neighbour_count(g, x, y) <= 5) ==> action_seq(cell_action(g, x, y))
            == Seq::<ActionView>::empty(),
        g[x][y].0 != 0 && 2 < neighbour_count(g, x, y) <= 5 ==> action_seq(cell_action(g, x, y))
            == Seq::<ActionView>::empty(),
{
}

/// The cell `(x, y)` of a grid `r` that is one generation after `g`:
/// in `x` in `2..WIDTH - 3`, `y` in `2..HEIGHT - 3`, a dead cell with
/// `2 < n <= 5` living neighbours is born (value 1, age 0), a living cell with
/// `n <= 2` or `n > 5` dies (value 0, age 0), and every other cell, there and
/// outside that range, keeps its state.
pub open spec fn one_generation_at(g: GridView, r: GridView, x: int, y: int) -> bool {
    let n = neighbour_count(g, x, y);
    let evaluated = 2 <= x < WIDTH - 1 - 2 && 2 <= y < HEIGHT - 1 - 2;
    &&& evaluated && g[x][y].0 == 0 && 2 < n <= 5 ==> r[x][y] == (1u32, 0u32)
    &&& evaluated && g[x][y].0 != 0 && (n <= 2 || n > 5) ==> r[x][y] == (0u32, 0u32)
    &&& evaluated && g[x][y].0 == 0 && !(2 < n <= 5) ==> r[x][y] == g[x][y]
    &&& evaluated && g[x][y].0 != 0 && 2 < n <= 5 ==> r[x][y] == g[x][y]
    &&& !evaluated ==> r[x][y] == g[x][y]
}

/// One generation, cell by cell: the next generation (what `run_x_times`
/// produces per generation) follows the rule at every cell of the grid, and
/// the grid keeps its shape.
pub proof fn law_next_generation_rule(g: GridView, x: int, y: int)
    requires
        shape_ok(g),
        0 <= x < HEIGHT,
        0 <= y < WIDTH,
    ensures
        shape_ok(next_generation(g)),
        one_generation_at(g, next_generation(g), x, y),
{
    lemma_next_generation_shape(g);
}

/// The actions a single-threaded step queues (`gol_single_threaded`), applied
/// in order by `run_gol`, carry out one generation at every cell of the grid:
/// every cell in `x` in `2..WIDTH - 3`, `y` in `2..HEIGHT - 3` is evaluated.
pub proof fn law_step_rule(g: GridView, x: int, y: int)
    requires
        shape_ok(g),
        0 <= x < HEIGHT,
        0 <= y < WIDTH,
    ensures
        shape_ok(apply_actions(g, generation_actions(g))),
        one_generation_at(g, apply_actions(g, generation_actions(g)), x, y),
{
    lemma_generation_actions(g);
    law_next_generation_rule(g, x, y);
}

} // verus!
