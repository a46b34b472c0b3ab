//! The game grid, its cells, and the rule that takes one generation to the
//! next.
use crate::action_queue::{new_action_queue, queue_is_empty, queue_items, queue_pop, queue_push};
use crate::cell_array::{array_cells, CellArray};
use crate::model::{
    action_in_bounds, action_seq, actions_in_bounds, apply_actions, cell_action, column_actions, generation_actions,
    grid_actions, in_interior, interior_cell_count, interior_index, row_count, set_cell, shape_ok, window_count, ActionView, CellView, GridView,
};
use crate::random::{gen_range_inclusive, thread_rng};
use crossbeam::queue::SegQueue;
use vstd::prelude::*;

verus! {

/// A cell with at most this many living neighbours dies.
pub const POP_MIN: u32 = 2;

/// A cell with more than this many living neighbours dies.
pub const POP_MAX: u32 = 5;

/// Number of rows of a grid.
pub const HEIGHT: usize = 400;

/// Number of columns of a grid.
pub const WIDTH: usize = 400;

/// Number of worker threads a multithreaded step uses.
pub const NUMBER_THREADS: usize = 32;

/// A pending change of one cell: at `(x, y)` the cell becomes
/// `new_value` with age 0.
#[allow(non_camel_case_types)]
#[derive(Clone, Debug, Copy)]
pub struct Cell_Action {
    x: usize,
    y: usize,
    new_age: u32,
    new_value: u32,
}

impl View for Cell_Action {
    type V = ActionView;

    closed spec fn view(&self) -> ActionView {
        (self.x, self.y, self.new_age, self.new_value)
    }
}

impl Cell_Action {
    /// The cell `(x, y)` the action changes.
    pub fn coordinates(&self) -> (r: (usize, usize))
        ensures
            r == (self@.0, self@.1),
    {
        (self.x, self.y)
    }
}

/// A cell: a value (0 is dead) and an age.
#[derive(Clone, Debug, Copy)]
pub struct Cell {
    value: u32,
    age: u32,
}

impl View for Cell {
    type V = CellView;

    closed spec fn view(&self) -> CellView {
        (self.value, self.age)
    }
}

impl Cell {
    /// A dead cell of age 0.
    pub fn new() -> (r: Self)
        ensures
            r@ == (0u32, 0u32),
    {
        Cell { value: 0, age: 0 }
    }

    /// A cell of the given value and age 0.
    pub fn new_with_value(value: u32) -> (r: Self)
        ensures
            r@ == (value, 0u32),
    {
        Cell { value, age: 0 }
    }

    /// The value of the cell.
    pub fn get_value(cell: &Cell) -> (r: u32)
        ensures
            r == cell@.0,
    {
        cell.value
    }
}

/// The game field: `HEIGHT` rows of `WIDTH` cells.
#[derive(Debug)]
pub struct Grid {
    grid: CellArray,
    height: usize,
    width: usize,
}

impl View for Grid {
    type V = GridView;

    closed spec fn view(&self) -> GridView {
        array_cells(self.grid)
    }
}

impl Grid {
    /// The height and width the grid records for itself.
    pub closed spec fn dims(&self) -> (usize, usize) {
        (self.height, self.width)
    }

    /// The grid has its fixed shape, and records it.
    pub open spec fn wf(&self) -> bool {
        &&& shape_ok(self@)
        &&& self.dims() == (HEIGHT, WIDTH)
    }

    /// A grid whose every cell is dead with age 1.
    pub fn new() -> (r: Self)
        ensures
            r.wf(),
            r@ == Seq::new(HEIGHT as nat, |i: int| Seq::new(WIDTH as nat, |j: int| (0u32, 1u32))),
    {
        let g = Grid {
            grid: CellArray::from_elem(HEIGHT, WIDTH, Cell { value: 0, age: 1 }),
            height: HEIGHT,
            width: WIDTH,
        };
        assert(Cell { value: 0, age: 1 }@ == (0u32, 1u32));
        g
    }

    /// Puts `value` at `(x, y)`.
    pub fn set_value(x: usize, y: usize, value: Cell, grid: &mut Grid)
        requires
            old(grid).wf(),
            x < HEIGHT,
            y < WIDTH,
        ensures
            final(grid).wf(),
            final(grid)@ == set_cell(old(grid)@, x as int, y as int, value@),
    {
        grid.grid.set(x, y, value);
        proof {
            assert forall|i: int| 0 <= i < grid@.len() implies #[trigger] grid@[i].len() == WIDTH by {
                if i != x {
                    assert(grid@[i] == old(grid)@[i]);
                }
            }
        }
    }

    /// The cell at `(x, y)`.
    pub fn get_value(x: usize, y: usize, grid: &Grid) -> (r: Cell)
        requires
            grid.wf(),
            x < HEIGHT,
            y < WIDTH,
        ensures
            r@ == grid@[x as int][y as int],
    {
        grid.grid.get(x, y)
    }
}

impl Clone for Grid {
    fn clone(&self) -> (r: Self)
        ensures
            r@ == self@,
            r.dims() == self.dims(),
    {
        Grid { grid: self.grid.duplicate(), height: self.height, width: self.width }
    }
}


/// Sets every cell the step evaluates (`x` in `2..WIDTH - 3`, `y` in
/// `2..HEIGHT - 3`) to the next value of `bits` with age 0, taking the cells
/// column by column; every other cell keeps its state.
pub fn fill_interior(grid: &mut Grid, bits: &Vec<u32>)
    requires
        old(grid).wf(),
        bits.len() == interior_cell_count(),
    ensures
        final(grid).wf(),
        forall|x: int, y: int|
            0 <= x < HEIGHT && 0 <= y < WIDTH ==> #[trigger] final(grid)@[x][y] == if in_interior(x, y) {
                (bits@[interior_index(x, y)], 0u32)
            } else {
                old(grid)@[x][y]
            },
{
    let ghost g0 = grid@;
    let mut k: usize = 0;
    let mut x: usize = 2;
    while x < WIDTH - 1 - 2
        invariant
            2 <= x <= WIDTH - 3,
            k == interior_index(x as int, 2),
            bits.len() == interior_cell_count(),
            grid.wf(),
            shape_ok(g0),
            forall|i: int, j: int|
                #![trigger grid@[i][j]]
                0 <= i < HEIGHT && 0 <= j < WIDTH ==> grid@[i][j] == if in_interior(i, j) && i < x {
                    (bits@[interior_index(i, j)], 0u32)
                } else {
                    g0[i][j]
                },
        decreases WIDTH - x,
    {
        let mut y: usize = 2;
        while y < HEIGHT - 1 - 2
            invariant
                2 <= x < WIDTH - 3,
                2 <= y <= HEIGHT - 3,
                k == interior_index(x as int, y as int),
                bits.len() == interior_cell_count(),
                grid.wf(),
                shape_ok(g0),
                forall|i: int, j: int|
                    #![trigger grid@[i][j]]
                    0 <= i < HEIGHT && 0 <= j < WIDTH ==> grid@[i][j] == if in_interior(i, j) && (i
                        < x || (i == x && j < y)) {
                        (bits@[interior_index(i, j)], 0u32)
                    } else {
                        g0[i][j]
                    },
            decreases HEIGHT - y,
        {
            Grid::set_value(x, y, Cell::new_with_value(bits[k]), grid);
            k += 1;
            y += 1;
        }
        assert forall|i: int, j: int| 0 <= i < HEIGHT && 0 <= j < WIDTH implies #[trigger] grid@[i][j]
            == if in_interior(i, j) && i < x + 1 {
            (bits@[interior_index(i, j)], 0u32)
        } else {
            g0[i][j]
        } by {
            if in_interior(i, j) && i < x + 1 {
                assert(i < x || (i == x && j < y));
            }
        }
        x += 1;
    }
}

/// Sets every cell the step evaluates (`x` in `2..WIDTH - 3`, `y` in
/// `2..HEIGHT - 3`) to a random value 0 or 1 with age 0.  The values are
/// drawn column by column and placed by `fill_interior`.
pub fn randomize_grid(grid: &mut Grid)
    requires
        old(grid).wf(),
    ensures
        final(grid).wf(),
        forall|x: int, y: int|
            0 <= x < HEIGHT && 0 <= y < WIDTH ==> if in_interior(x, y) {
                final(grid)@[x][y].0 <= 1 && final(grid)@[x][y].1 == 0
            } else {
                final(grid)@[x][y] == old(grid)@[x][y]
            },
{
    let mut rng = thread_rng();
    let mut bits: Vec<u32> = Vec::new();
    let mut x: usize = 2;
    while x < WIDTH - 1 - 2
        invariant
            2 <= x <= WIDTH - 3,
            bits.len() == interior_index(x as int, 2),
            forall|k: int| 0 <= k < bits.len() ==> #[trigger] bits@[k] <= 1,
        decreases WIDTH - x,
    {
        let mut y: usize = 2;
        while y < HEIGHT - 1 - 2
            invariant
                2 <= x < WIDTH - 3,
                2 <= y <= HEIGHT - 3,
                bits.len() == interior_index(x as int, y as int),
                forall|k: int| 0 <= k < bits.len() ==> #[trigger] bits@[k] <= 1,
            decreases HEIGHT - y,
        {
            let bit = gen_range_inclusive(&mut rng, 0, 1);
            bits.push(bit);
            y += 1;
        }
        x += 1;
    }
    let ghost g0 = grid@;
    fill_interior(grid, &bits);
    assert forall|x: int, y: int| 0 <= x < HEIGHT && 0 <= y < WIDTH && in_interior(x, y) implies 0
        <= interior_index(x, y) < bits.len() by {
        assert(interior_index(x, y) <= interior_index(x, HEIGHT - 4));
        assert(interior_index(x, HEIGHT - 4) <= interior_index(WIDTH - 4, HEIGHT - 4));
    }
}

/// A new, empty action queue.
pub fn empty_action_queue() -> (q: SegQueue<Cell_Action>)
    ensures
        queue_items(q) == Seq::<ActionView>::empty(),
{
    new_action_queue()
}

/// Evaluates the rule for the cell `(x_pos, y_pos)` and queues the action it
/// calls for, if any.  The neighbourhood is the 5x5 window around the cell.
#[allow(unused_assignments)]
pub fn gol_algorithm_multithreaded(
    x_pos: usize,
    y_pos: usize,
    grid: &Grid,
    action_queue: &mut SegQueue<Cell_Action>,
)
    requires
        grid.wf(),
        2 <= x_pos,
        x_pos + 2 < HEIGHT,
        2 <= y_pos,
        y_pos + 2 < WIDTH,
    ensures
        queue_items(*final(action_queue)) == queue_items(*old(action_queue)) + action_seq(
            cell_action(grid@, x_pos as int, y_pos as int),
        ),
{
    let ghost g = grid@;
    let mut neighbours_amount: u32 = 0;
    let mut neighbours_value: u64 = 0;
    let mut neighbours_age_sum: u64 = 0;
    let mut neighbours_age_average: u64 = 0;
    let own_cell: Cell = Grid::get_value(x_pos, y_pos, grid);

    let mut x: isize = -2;
    while x <= 2
        invariant
            -2 <= x <= 3,
            grid.wf(),
            g == grid@,
            2 <= x_pos,
            x_pos + 2 < HEIGHT,
            2 <= y_pos,
            y_pos + 2 < WIDTH,
            neighbours_amount == window_count(g, x_pos as int, y_pos as int, (x + 2) as nat),
            neighbours_amount <= 5 * (x + 2),
            neighbours_value <= neighbours_amount * 0xffff_ffffu64,
            neighbours_age_sum <= neighbours_amount * 0xffff_ffffu64,
        decreases 3 - x,
    {
        let mut y: isize = -2;
        while y <= 2
            invariant
                -2 <= x <= 2,
                -2 <= y <= 3,
                grid.wf(),
                g == grid@,
                2 <= x_pos,
                x_pos + 2 < HEIGHT,
                2 <= y_pos,
                y_pos + 2 < WIDTH,
                neighbours_amount == window_count(g, x_pos as int, y_pos as int, (x + 2) as nat)
                    + row_count(g, x_pos as int, y_pos as int, x as int, (y + 2) as nat),
                neighbours_amount <= 5 * (x + 2) + (y + 2),
                neighbours_value <= neighbours_amount * 0xffff_ffffu64,
                neighbours_age_sum <= neighbours_amount * 0xffff_ffffu64,
            decreases 3 - y,
        {
            if !(x == 0 && y == 0) {
                let cell: Cell = Grid::get_value(
                    (x_pos as isize + x) as usize,
                    (y_pos as isize + y) as usize,
                    grid,
                );
                if cell.value != 0 {
                    neighbours_amount += 1;
                    neighbours_value += cell.value as u64;
                    neighbours_age_sum += cell.age as u64;
                }
            }
            y += 1;
        }
        x += 1;
    }

    if neighbours_amount != 0 {
        neighbours_age_average = neighbours_age_sum / (neighbours_amount as u64);
    }

    if neighbours_amount <= POP_MIN || neighbours_amount > POP_MAX {
        if own_cell.value != 0 {
            queue_push(action_queue, Cell_Action { x: x_pos, y: y_pos, new_age: 0, new_value: 0 });
        }
    } else {
        if own_cell.value == 0 {
            queue_push(action_queue, Cell_Action { x: x_pos, y: y_pos, new_age: 0, new_value: 1 });
        }
    }
    proof {
        let q0 = queue_items(*old(action_queue));
        if cell_action(g, x_pos as int, y_pos as int) is None {
            assert(q0 + action_seq(cell_action(g, x_pos as int, y_pos as int)) =~= q0);
        }
    }
}

/// Evaluates the rule for every cell the step covers, column by column
/// (`x` in `2..WIDTH - 3`, then `y` in `2..HEIGHT - 3`), and queues the
/// actions in that order.
pub fn gol_single_threaded(grid: &Grid, action_queue: &mut SegQueue<Cell_Action>)
    requires
        grid.wf(),
    ensures
        queue_items(*final(action_queue)) == queue_items(*old(action_queue)) + generation_actions(
            grid@,
        ),
{
    let ghost g = grid@;
    let ghost start = queue_items(*action_queue);
    let mut x: usize = 2;
    while x < WIDTH - 1 - 2
        invariant
            2 <= x <= WIDTH - 3,
            grid.wf(),
            g == grid@,
            queue_items(*action_queue) == start + grid_actions(g, (x - 2) as nat),
        decreases WIDTH - x,
    {
        let mut y: usize = 2;
        while y < HEIGHT - 1 - 2
            invariant
                2 <= x < WIDTH - 3,
                2 <= y <= HEIGHT - 3,
                grid.wf(),
                g == grid@,
                queue_items(*action_queue) == start + grid_actions(g, (x - 2) as nat)
                    + column_actions(g, x as int, (y - 2) as nat),
            decreases HEIGHT - y,
        {
            let ghost before = queue_items(*action_queue);
            gol_algorithm_multithreaded(x, y, grid, action_queue);
            proof {
                let ga = grid_actions(g, (x - 2) as nat);
                let ca = column_actions(g, x as int, (y - 2) as nat);
                let one = action_seq(cell_action(g, x as int, y as int));
                assert(column_actions(g, x as int, (y + 1 - 2) as nat) == ca + one);
                assert((start + ga + ca) + one =~= start + ga + (ca + one));
            }
            y += 1;
        }
        proof {
            let ga = grid_actions(g, (x - 2) as nat);
            let ca = column_actions(g, x as int, (HEIGHT - 5) as nat);
            assert(grid_actions(g, (x + 1 - 2) as nat) == ga + ca);
            assert((start + ga) + ca =~= start + (ga + ca));
        }
        x += 1;
    }
}

/// Applies the queued actions front to back, emptying the queue: each
/// action's cell becomes its new value with age 0.
pub fn run_gol(action_queue: &mut SegQueue<Cell_Action>, grid: &mut Grid)
    requires
        old(grid).wf(),
        actions_in_bounds(old(grid)@, queue_items(*old(action_queue))),
    ensures
        final(grid).wf(),
        final(grid)@ == apply_actions(old(grid)@, queue_items(*old(action_queue))),
        queue_items(*final(action_queue)).len() == 0,
{
    let ghost acts = queue_items(*action_queue);
    let ghost g0 = grid@;
    let ghost mut k: int = 0;
    while !queue_is_empty(action_queue)
        invariant
            0 <= k <= acts.len(),
            shape_ok(g0),
            actions_in_bounds(g0, acts),
            queue_items(*action_queue) == acts.subrange(k, acts.len() as int),
            grid.wf(),
            grid@ == apply_actions(g0, acts.subrange(0, k)),
        decreases acts.len() - k,
    {
        let action: Cell_Action = queue_pop(action_queue).unwrap();
        assert(acts.subrange(k, acts.len() as int)[0] == acts[k]);
        assert(action_in_bounds(g0, acts[k]));
        assert(g0[acts[k].0 as int].len() == WIDTH);
        Grid::set_value(action.x, action.y, Cell { value: action.new_value, age: 0 }, grid);
        proof {
            assert(acts.subrange(0, k + 1).drop_last() =~= acts.subrange(0, k));
            assert(acts.subrange(k, acts.len() as int).drop_first() =~= acts.subrange(
                k + 1,
                acts.len() as int,
            ));
            k = k + 1;
        }
    }
    assert(acts.subrange(0, k) =~= acts);
}

} // verus!
