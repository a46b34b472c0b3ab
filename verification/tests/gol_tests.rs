use crossbeam::queue::SegQueue;
use game_of_life::cli_driver::{collect_living_cells, get_living_cells, run_x_times};
use game_of_life::gol::{
    empty_action_queue, fill_interior, gol_algorithm_multithreaded, gol_single_threaded, randomize_grid, run_gol, Cell, Cell_Action,
    Grid, HEIGHT, NUMBER_THREADS, POP_MAX, POP_MIN, WIDTH,
};

fn show(cell: Cell) -> String {
    format!("{:?}", cell)
}

fn grid_with(living: &[(usize, usize)]) -> Grid {
    let mut grid = Grid::new();
    for &(x, y) in living {
        Grid::set_value(x, y, Cell::new_with_value(1), &mut grid);
    }
    grid
}

fn row_of_three() -> Grid {
    grid_with(&[(10, 10), (10, 11), (10, 12)])
}

fn drain(queue: &SegQueue<Cell_Action>) -> Vec<Cell_Action> {
    let mut out = Vec::new();
    while let Some(a) = queue.pop() {
        out.push(a);
    }
    out
}

fn all_cells(grid: &Grid) -> Vec<String> {
    let mut out = Vec::new();
    for x in 0..HEIGHT {
        for y in 0..WIDTH {
            out.push(show(Grid::get_value(x, y, grid)));
        }
    }
    out
}

#[test]
fn constants_of_the_game() {
    assert_eq!(HEIGHT, 400);
    assert_eq!(WIDTH, 400);
    assert_eq!(NUMBER_THREADS, 32);
    assert_eq!(POP_MIN, 2);
    assert_eq!(POP_MAX, 5);
}

#[test]
fn cell_new_is_dead_with_age_zero() {
    let c = Cell::new();
    assert_eq!(Cell::get_value(&c), 0);
    assert_eq!(show(c), "Cell { value: 0, age: 0 }");
}

#[test]
fn cell_new_with_value_keeps_value() {
    let c = Cell::new_with_value(7);
    assert_eq!(Cell::get_value(&c), 7);
    assert_eq!(show(c), "Cell { value: 7, age: 0 }");
}

#[test]
fn new_grid_is_dead_with_age_one() {
    let grid = Grid::new();
    for &(x, y) in &[(0, 0), (0, 399), (399, 0), (399, 399), (200, 123)] {
        assert_eq!(show(Grid::get_value(x, y, &grid)), "Cell { value: 0, age: 1 }");
    }
}

#[test]
fn get_after_set_returns_written_cell() {
    let mut grid = Grid::new();
    Grid::set_value(5, 6, Cell::new_with_value(3), &mut grid);
    assert_eq!(show(Grid::get_value(5, 6, &grid)), "Cell { value: 3, age: 0 }");
    assert_eq!(show(Grid::get_value(5, 7, &grid)), "Cell { value: 0, age: 1 }");
    assert_eq!(show(Grid::get_value(6, 6, &grid)), "Cell { value: 0, age: 1 }");
}

#[test]
fn clone_is_independent_copy() {
    let grid = row_of_three();
    let mut copy = grid.clone();
    assert_eq!(all_cells(&grid), all_cells(&copy));
    Grid::set_value(10, 11, Cell::new(), &mut copy);
    assert_eq!(Cell::get_value(&Grid::get_value(10, 11, &grid)), 1);
    assert_eq!(Cell::get_value(&Grid::get_value(10, 11, &copy)), 0);
}

#[test]
fn dead_cell_with_three_neighbours_is_born() {
    let grid = row_of_three();
    let mut queue = SegQueue::new();
    gol_algorithm_multithreaded(11, 11, &grid, &mut queue);
    let acts = drain(&queue);
    assert_eq!(acts.len(), 1);
    assert_eq!(acts[0].coordinates(), (11, 11));
    assert_eq!(format!("{:?}", acts[0]), "Cell_Action { x: 11, y: 11, new_age: 0, new_value: 1 }");
}

#[test]
fn living_cell_with_two_neighbours_dies() {
    let grid = row_of_three();
    let mut queue = SegQueue::new();
    gol_algorithm_multithreaded(10, 11, &grid, &mut queue);
    let acts = drain(&queue);
    assert_eq!(acts.len(), 1);
    assert_eq!(format!("{:?}", acts[0]), "Cell_Action { x: 10, y: 11, new_age: 0, new_value: 0 }");
}

#[test]
fn living_cell_with_three_neighbours_survives() {
    let grid = grid_with(&[(10, 10), (10, 11), (10, 12), (11, 11)]);
    let mut queue = SegQueue::new();
    gol_algorithm_multithreaded(10, 11, &grid, &mut queue);
    assert!(queue.is_empty());
}

#[test]
fn living_cell_with_six_neighbours_dies() {
    let grid = grid_with(&[(20, 20), (18, 18), (18, 19), (18, 20), (18, 21), (18, 22), (22, 22)]);
    let mut queue = SegQueue::new();
    gol_algorithm_multithreaded(20, 20, &grid, &mut queue);
    let acts = drain(&queue);
    assert_eq!(acts.len(), 1);
    assert_eq!(format!("{:?}", acts[0]), "Cell_Action { x: 20, y: 20, new_age: 0, new_value: 0 }");
}

#[test]
fn dead_cell_with_six_neighbours_stays_dead() {
    let grid = grid_with(&[(18, 18), (18, 19), (18, 20), (18, 21), (18, 22), (22, 22)]);
    let mut queue = SegQueue::new();
    gol_algorithm_multithreaded(20, 20, &grid, &mut queue);
    assert!(queue.is_empty());
}

#[test]
fn lonely_dead_cell_gets_no_action() {
    let grid = Grid::new();
    let mut queue = SegQueue::new();
    gol_algorithm_multithreaded(30, 30, &grid, &mut queue);
    assert!(queue.is_empty());
}

#[test]
fn window_reaches_two_cells_away() {
    // Neighbours at distance two count; the cell at distance three does not.
    let grid = grid_with(&[(48, 48), (52, 52), (48, 52), (50, 53)]);
    let mut queue = SegQueue::new();
    gol_algorithm_multithreaded(50, 50, &grid, &mut queue);
    let acts = drain(&queue);
    assert_eq!(acts.len(), 1);
    assert_eq!(format!("{:?}", acts[0]), "Cell_Action { x: 50, y: 50, new_age: 0, new_value: 1 }");
}

#[test]
fn single_threaded_step_queues_actions_column_by_column() {
    let grid = row_of_three();
    let mut queue = SegQueue::new();
    gol_single_threaded(&grid, &mut queue);
    let acts: Vec<(usize, usize, String)> = drain(&queue)
        .iter()
        .map(|a| (a.coordinates().0, a.coordinates().1, format!("{:?}", a)))
        .collect();
    let coords: Vec<(usize, usize)> = acts.iter().map(|a| (a.0, a.1)).collect();
    assert_eq!(
        coords,
        vec![
            (8, 10), (8, 11), (8, 12), (9, 10), (9, 11), (9, 12), (10, 10), (10, 11), (10, 12),
            (11, 10), (11, 11), (11, 12), (12, 10), (12, 11), (12, 12)
        ]
    );
    assert!(acts[6].2.ends_with("new_value: 0 }"));
    assert!(acts[0].2.ends_with("new_value: 1 }"));
}

#[test]
fn run_gol_applies_actions_and_empties_queue() {
    let mut grid = row_of_three();
    let mut queue = SegQueue::new();
    gol_algorithm_multithreaded(11, 11, &grid, &mut queue);
    gol_algorithm_multithreaded(10, 11, &grid, &mut queue);
    run_gol(&mut queue, &mut grid);
    assert!(queue.is_empty());
    assert_eq!(show(Grid::get_value(11, 11, &grid)), "Cell { value: 1, age: 0 }");
    assert_eq!(show(Grid::get_value(10, 11, &grid)), "Cell { value: 0, age: 0 }");
    assert_eq!(show(Grid::get_value(10, 10, &grid)), "Cell { value: 1, age: 0 }");
}

#[test]
fn run_gol_on_empty_queue_keeps_grid() {
    let mut grid = row_of_three();
    let before = all_cells(&grid);
    let mut queue = SegQueue::new();
    run_gol(&mut queue, &mut grid);
    assert_eq!(all_cells(&grid), before);
}

#[test]
fn one_generation_of_a_row_of_three() {
    let mut grid = row_of_three();
    run_x_times(&mut grid, 1);
    assert_eq!(
        get_living_cells(&grid),
        vec![
            (8, 10), (8, 11), (8, 12), (9, 10), (9, 11), (9, 12), (11, 10), (11, 11), (11, 12),
            (12, 10), (12, 11), (12, 12)
        ]
    );
}

#[test]
fn two_generations_of_a_row_of_three() {
    let mut grid = row_of_three();
    run_x_times(&mut grid, 2);
    assert_eq!(
        get_living_cells(&grid),
        vec![
            (6, 10), (6, 11), (6, 12), (7, 9), (7, 13), (8, 9), (8, 10), (8, 11), (8, 12), (8, 13),
            (9, 8), (9, 14), (10, 8), (10, 14), (11, 8), (11, 14), (12, 9), (12, 10), (12, 11),
            (12, 12), (12, 13), (13, 9), (13, 13), (14, 10), (14, 11), (14, 12)
        ]
    );
}

#[test]
fn generations_compose() {
    let mut once = row_of_three();
    run_x_times(&mut once, 1);
    run_x_times(&mut once, 2);
    let mut all_at_once = row_of_three();
    run_x_times(&mut all_at_once, 3);
    assert_eq!(all_cells(&once), all_cells(&all_at_once));
}

#[test]
fn zero_generations_keep_grid() {
    let mut grid = row_of_three();
    let before = all_cells(&grid);
    run_x_times(&mut grid, 0);
    assert_eq!(all_cells(&grid), before);
}

#[test]
fn dead_grid_stays_dead() {
    let mut grid = Grid::new();
    let before = all_cells(&grid);
    run_x_times(&mut grid, 3);
    assert_eq!(all_cells(&grid), before);
    assert!(get_living_cells(&grid).is_empty());
}

#[test]
fn border_cells_never_change() {
    let mut grid = grid_with(&[(1, 1), (398, 5), (5, 397), (10, 10), (10, 11), (10, 12)]);
    run_x_times(&mut grid, 3);
    assert_eq!(show(Grid::get_value(1, 1, &grid)), "Cell { value: 1, age: 0 }");
    assert_eq!(show(Grid::get_value(398, 5, &grid)), "Cell { value: 1, age: 0 }");
    assert_eq!(show(Grid::get_value(5, 397, &grid)), "Cell { value: 1, age: 0 }");
    assert_eq!(show(Grid::get_value(0, 0, &grid)), "Cell { value: 0, age: 1 }");
}

#[test]
fn actions_in_any_order_give_same_grid() {
    let grid = grid_with(&[(10, 10), (10, 11), (10, 12), (11, 13), (30, 30), (31, 31), (30, 32)]);
    let mut forward = grid.clone();
    let mut queue = SegQueue::new();
    gol_single_threaded(&grid, &mut queue);
    run_gol(&mut queue, &mut forward);

    let mut backward = grid.clone();
    let mut reversed = SegQueue::new();
    for x in (2..WIDTH - 3).rev() {
        for y in (2..HEIGHT - 3).rev() {
            gol_algorithm_multithreaded(x, y, &grid, &mut reversed);
        }
    }
    run_gol(&mut reversed, &mut backward);
    assert_eq!(all_cells(&forward), all_cells(&backward));
}

#[test]
fn get_living_cells_leaves_grid_unchanged() {
    let grid = row_of_three();
    let before = all_cells(&grid);
    assert_eq!(get_living_cells(&grid), vec![(10, 10), (10, 11), (10, 12)]);
    assert_eq!(all_cells(&grid), before);
}

#[test]
fn living_cells_are_value_one_in_range() {
    let mut grid = grid_with(&[(396, 5), (5, 396), (2, 2), (1, 3)]);
    Grid::set_value(7, 7, Cell::new_with_value(2), &mut grid);
    assert_eq!(get_living_cells(&grid), vec![(2, 2)]);
    assert_eq!(collect_living_cells(&grid, 397, 397), vec![(2, 2), (5, 396), (396, 5)]);
    assert_eq!(collect_living_cells(&grid, 2, 2), Vec::<(usize, usize)>::new());
}

#[test]
fn randomize_fills_interior_with_zero_or_one() {
    let mut grid = Grid::new();
    randomize_grid(&mut grid);
    let mut living = 0usize;
    for x in 0..HEIGHT {
        for y in 0..WIDTH {
            let c = Grid::get_value(x, y, &grid);
            let v = Cell::get_value(&c);
            if (2..WIDTH - 3).contains(&x) && (2..HEIGHT - 3).contains(&y) {
                assert!(v <= 1);
                assert!(show(c).ends_with("age: 0 }"));
                living += v as usize;
            } else {
                assert_eq!(show(c), "Cell { value: 0, age: 1 }");
            }
        }
    }
    // 395 * 395 fair coin flips: all alike is all but impossible.
    assert!(living > 0 && living < 395 * 395);
}

#[test]
fn values_stay_zero_or_one() {
    let mut grid = Grid::new();
    randomize_grid(&mut grid);
    run_x_times(&mut grid, 2);
    for x in 0..HEIGHT {
        for y in 0..WIDTH {
            assert!(Cell::get_value(&Grid::get_value(x, y, &grid)) <= 1);
        }
    }
}

#[test]
fn fill_interior_places_values_column_by_column() {
    let mut grid = Grid::new();
    let span = HEIGHT - 5;
    let bits: Vec<u32> = (0..(WIDTH - 5) * span).map(|k| (k % 7) as u32).collect();
    fill_interior(&mut grid, &bits);
    assert_eq!(show(Grid::get_value(2, 2, &grid)), "Cell { value: 0, age: 0 }");
    assert_eq!(show(Grid::get_value(2, 3, &grid)), "Cell { value: 1, age: 0 }");
    assert_eq!(show(Grid::get_value(3, 2, &grid)), format!("Cell {{ value: {}, age: 0 }}", span % 7));
    let last = (WIDTH - 5) * span - 1;
    assert_eq!(show(Grid::get_value(396, 396, &grid)), format!("Cell {{ value: {}, age: 0 }}", last % 7));
    assert_eq!(show(Grid::get_value(1, 2, &grid)), "Cell { value: 0, age: 1 }");
    assert_eq!(show(Grid::get_value(397, 396, &grid)), "Cell { value: 0, age: 1 }");
    assert_eq!(show(Grid::get_value(2, 397, &grid)), "Cell { value: 0, age: 1 }");
}

#[test]
fn collect_living_cells_with_short_ranges_is_empty() {
    let grid = grid_with(&[(2, 2), (3, 3)]);
    assert_eq!(collect_living_cells(&grid, 0, 397), Vec::<(usize, usize)>::new());
    assert_eq!(collect_living_cells(&grid, 397, 1), Vec::<(usize, usize)>::new());
    assert_eq!(collect_living_cells(&grid, 3, 3), vec![(2, 2)]);
}

#[test]
fn empty_action_queue_holds_nothing() {
    let mut queue = empty_action_queue();
    assert!(queue.is_empty());
    let mut grid = row_of_three();
    gol_algorithm_multithreaded(11, 11, &grid, &mut queue);
    assert_eq!(queue.len(), 1);
    run_gol(&mut queue, &mut grid);
    assert!(queue.is_empty());
    assert_eq!(show(Grid::get_value(11, 11, &grid)), "Cell { value: 1, age: 0 }");
}
