//! Running the game for a number of generations, and reading off the living
//! cells.
use crate::action_queue::{new_action_queue, queue_items};
use crate::gol::{gol_single_threaded, run_gol, Cell, Grid, HEIGHT, WIDTH};
use crate::laws::{cell_less, law_living_cells_members, law_living_cells_sorted};
use crate::model::{
    generation_actions, generations, lemma_generation_actions, lemma_next_generation_shape,
    lemma_living_cells_no_rows, living_cells, living_in_column, span_from_two,
};
use vstd::prelude::*;

verus! {

/// Runs `amount` generations on the grid.
pub fn run_x_times(main_grid: &mut Grid, amount: usize)
    requires
        old(main_grid).wf(),
    ensures
        final(main_grid).wf(),
        final(main_grid)@ == generations(old(main_grid)@, amount as nat),
{
    let ghost g0 = main_grid@;
    let mut action_queue = new_action_queue();
    let mut i: usize = 0;
    while i < amount
        invariant
            i <= amount,
            main_grid.wf(),
            main_grid@ == generations(g0, i as nat),
            queue_items(action_queue).len() == 0,
        decreases amount - i,
    {
        let ghost before = main_grid@;
        gol_single_threaded(main_grid, &mut action_queue);
        proof {
            lemma_generation_actions(before);
            lemma_next_generation_shape(before);
            assert(queue_items(action_queue) =~= generation_actions(before));
        }
        run_gol(&mut action_queue, main_grid);
        i += 1;
    }
}

/// The living cells (value 1) at `x` in `2..x_end`, `y` in `2..y_end`, as
/// `(x, y)`, column by column and, within a column, by increasing `y`.
pub fn collect_living_cells(main_grid: &Grid, x_end: usize, y_end: usize) -> (r: Vec<(usize, usize)>)
    requires
        main_grid.wf(),
        x_end <= HEIGHT,
        y_end <= WIDTH,
    ensures
        r@ == living_cells(main_grid@, span_from_two(x_end as int), span_from_two(y_end as int)),
        forall|x: usize, y: usize|
            #[trigger] r@.contains((x, y)) <==> (2 <= x < x_end && 2 <= y < y_end
                && main_grid@[x as int][y as int].0 == 1),
        forall|i: int, j: int| 0 <= i < j < r@.len() ==> cell_less(#[trigger] r@[i], #[trigger] r@[j]),
{
    let ghost g = main_grid@;
    proof {
        let m = span_from_two(x_end as int);
        let n = span_from_two(y_end as int);
        law_living_cells_sorted(g, m, n);
        assert forall|x: usize, y: usize|
            #[trigger] living_cells(g, m, n).contains((x, y)) <==> (2 <= x < x_end && 2 <= y < y_end
                && g[x as int][y as int].0 == 1) by {
            law_living_cells_members(g, m, n, x, y);
        }
    }
    if x_end < 2 || y_end < 2 {
        proof {
            lemma_living_cells_no_rows(g, span_from_two(x_end as int));
        }
        return Vec::new();
    }
    let mut living: Vec<(usize, usize)> = Vec::new();
    let mut x: usize = 2;
    while x < x_end
        invariant
            2 <= x <= x_end <= HEIGHT,
            2 <= y_end <= WIDTH,
            main_grid.wf(),
            g == main_grid@,
            living@ == living_cells(g, (x - 2) as nat, (y_end - 2) as nat),
        decreases x_end - x,
    {
        let ghost prefix = living@;
        let mut y: usize = 2;
        while y < y_end
            invariant
                2 <= x < x_end <= HEIGHT,
                2 <= y <= y_end <= WIDTH,
                main_grid.wf(),
                g == main_grid@,
                living@ == prefix + living_in_column(g, x as int, (y - 2) as nat),
            decreases y_end - y,
        {
            let cell = Grid::get_value(x, y, main_grid);
            let value = Cell::get_value(&cell);
            let ghost col = living_in_column(g, x as int, (y - 2) as nat);
            match value {
                1 => {
                    let coordinates = (x, y);
                    living.push(coordinates);
                    assert(prefix + col.push((x, y)) =~= (prefix + col).push((x, y)));
                },
                _ => {},
            }
            y += 1;
        }
        x += 1;
    }
    living
}

/// The living cells (value 1) at `x` in `2..WIDTH - 4`, `y` in
/// `2..HEIGHT - 4`, in the order of `collect_living_cells`.  It first
/// evaluates a step into a queue of its own, which it then drops; the grid
/// does not change.
pub fn get_living_cells(main_grid: &Grid) -> (r: Vec<(usize, usize)>)
    requires
        main_grid.wf(),
    ensures
        r@ == living_cells(main_grid@, (WIDTH - 6) as nat, (HEIGHT - 6) as nat),
        forall|x: usize, y: usize|
            #[trigger] r@.contains((x, y)) <==> (2 <= x < WIDTH - 4 && 2 <= y < HEIGHT - 4
                && main_grid@[x as int][y as int].0 == 1),
        forall|i: int, j: int| 0 <= i < j < r@.len() ==> cell_less(#[trigger] r@[i], #[trigger] r@[j]),
{
    let mut action_queue = new_action_queue();
    gol_single_threaded(main_grid, &mut action_queue);
    collect_living_cells(main_grid, WIDTH - 1 - 3, HEIGHT - 1 - 3)
}

} // verus!
