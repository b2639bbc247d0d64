use tile_rules::grid::Grid;
use tile_rules::iterations::{same_cells, CellChange, GridIterations};
use tile_rules::rule::Rule;
use tile_rules::rules::PlayerRules;
use tile_rules::tile::{Face, Tile};

fn east_south_rule() -> PlayerRules {
    let mut mask = [false; 8];
    mask[4] = true;
    mask[6] = true;
    let mut rules = PlayerRules::default();
    rules.set_rule(
        Tile::Red,
        Rule {
            tiles: [Some(Tile::Red), None],
            invert: false,
            mask,
            changed: [false; 8],
            result: Some(Tile::Green),
        },
    );
    rules
}

fn spreading_rules() -> PlayerRules {
    // a red cell with a green neighbour anywhere around it turns green
    let mut rules = PlayerRules::default();
    rules.set_rule(
        Tile::Red,
        Rule {
            tiles: [Some(Tile::Green), None],
            invert: false,
            mask: [true; 8],
            changed: [false; 8],
            result: Some(Tile::Green),
        },
    );
    rules
}

fn loaded(initial: Grid, goal: Grid) -> GridIterations {
    assert!(GridIterations::is_puzzle(&initial, &goal));
    let mut iterations = GridIterations::default();
    iterations.load(initial, goal);
    iterations
}

#[test]
fn fresh_history_is_empty_with_default_cap() {
    let iterations = GridIterations::default();
    assert!(iterations.grid.is_empty());
    assert!(iterations.goal.is_empty());
    assert_eq!(iterations.max, 50);
}

#[test]
fn puzzles_are_square_and_of_equal_size() {
    assert!(GridIterations::is_puzzle(&vec![0; 4], &vec![1; 4]));
    assert!(GridIterations::is_puzzle(&vec![0; 9], &vec![1; 9]));
    assert!(GridIterations::is_puzzle(&vec![], &vec![]));
    assert!(!GridIterations::is_puzzle(&vec![0; 4], &vec![1; 9]));
    assert!(!GridIterations::is_puzzle(&vec![0; 2], &vec![1; 2]));
    assert!(!GridIterations::is_puzzle(&vec![0; 8], &vec![1; 8]));
}

#[test]
fn load_replaces_history_and_goal() {
    let mut iterations = loaded(vec![0, 0, 0, 0], vec![1, 1, 1, 1]);
    iterations.step(&east_south_rule());
    iterations.load(vec![2; 9], vec![3; 9]);
    assert_eq!(iterations.grid, vec![vec![2; 9]]);
    assert_eq!(iterations.goal, vec![3; 9]);
    assert_eq!(iterations.max, 50);
}

#[test]
fn one_step_on_the_uniform_red_board() {
    let mut iterations = loaded(vec![0, 0, 0, 0], vec![1, 1, 1, 1]);
    let solved = iterations.step(&east_south_rule());
    assert!(!solved);
    assert_eq!(iterations.grid.len(), 2);
    assert_eq!(iterations.grid[0], vec![0, 0, 0, 0]);
    assert_eq!(iterations.grid[1][0], 1);
    assert_eq!(iterations.grid[1], vec![1, 1, 1, 0]);
}

#[test]
fn step_reads_only_the_previous_generation() {
    // green spreads by one cell per step and not further
    let mut iterations = loaded(vec![1, 0, 0, 0, 0, 0, 0, 0, 0], vec![1; 9]);
    let rules = spreading_rules();
    assert!(!iterations.step(&rules));
    assert_eq!(iterations.current(), &vec![1, 1, 0, 1, 1, 0, 0, 0, 0]);
    assert!(iterations.step(&rules));
    assert_eq!(iterations.current(), &vec![1; 9]);
    assert!(iterations.is_solved());
}

#[test]
fn history_grows_by_one_per_step() {
    let mut iterations = loaded(vec![1, 0, 0, 0, 0, 0, 0, 0, 0], vec![4; 9]);
    let rules = spreading_rules();
    for k in 1..=7usize {
        iterations.step(&rules);
        assert_eq!(iterations.grid.len(), k + 1);
        assert_eq!(iterations.grid[0], vec![1, 0, 0, 0, 0, 0, 0, 0, 0]);
        assert_eq!(iterations.current().len(), 9);
    }
}

#[test]
fn reset_twice_is_reset_once() {
    let mut iterations = loaded(vec![1, 0, 0, 0], vec![1; 4]);
    let rules = spreading_rules();
    iterations.step(&rules);
    iterations.step(&rules);
    assert_eq!(iterations.grid.len(), 3);
    iterations.reset();
    let once = iterations.grid.clone();
    iterations.reset();
    assert_eq!(iterations.grid, once);
    assert_eq!(once, vec![vec![1, 0, 0, 0]]);
    assert_eq!(iterations.goal, vec![1; 4]);
}

#[test]
fn reset_of_an_empty_history_keeps_it_empty() {
    let mut iterations = GridIterations::default();
    iterations.reset();
    assert!(iterations.grid.is_empty());
}

#[test]
fn replay_after_reset_gives_the_same_generations() {
    let rules = spreading_rules();
    let mut iterations = loaded(vec![0, 0, 0, 0, 0, 0, 0, 0, 1], vec![4; 9]);
    for _ in 0..4 {
        iterations.step(&rules);
    }
    let first_run = iterations.grid.clone();
    iterations.reset();
    for _ in 0..4 {
        iterations.step(&rules);
    }
    assert_eq!(iterations.grid, first_run);

    let mut other = loaded(vec![0, 0, 0, 0, 0, 0, 0, 0, 1], vec![4; 9]);
    other.step(&rules);
    other.reset();
    for _ in 0..4 {
        other.step(&rules);
    }
    assert_eq!(other.grid, first_run);
    assert_eq!(other.current(), &vec![1; 9]);
}

#[test]
fn nothing_has_changed_right_after_load_or_reset() {
    let mut iterations = loaded(vec![1, 0, 0, 0], vec![1; 4]);
    for index in 0..4 {
        assert!(!iterations.changed(index));
    }
    assert!(iterations.changed_cells().is_empty());
    assert_eq!(iterations.previous(), &vec![1, 0, 0, 0]);
    iterations.step(&spreading_rules());
    assert!(!iterations.changed(0));
    assert!(iterations.changed(1));
    assert!(iterations.changed(2));
    assert!(iterations.changed(3));
    iterations.reset();
    for index in 0..4 {
        assert!(!iterations.changed(index));
    }
}

#[test]
fn changed_cells_carry_both_codes() {
    let mut iterations = loaded(vec![1, 0, 0, 0, 0, 0, 0, 0, 0], vec![1; 9]);
    iterations.step(&spreading_rules());
    assert_eq!(
        iterations.changed_cells(),
        vec![
            CellChange { index: 1, previous: 0, current: 1 },
            CellChange { index: 3, previous: 0, current: 1 },
            CellChange { index: 4, previous: 0, current: 1 },
        ]
    );
    assert_eq!(iterations.previous(), &vec![1, 0, 0, 0, 0, 0, 0, 0, 0]);
}

#[test]
fn correct_cells_get_a_happy_face() {
    let iterations = loaded(vec![1, 0, 0, 1], vec![1, 1, 0, 0]);
    assert!(iterations.is_correct(0));
    assert!(!iterations.is_correct(1));
    assert!(iterations.is_correct(2));
    assert!(!iterations.is_correct(3));
    assert_eq!(iterations.face(0), Face::Happy);
    assert_eq!(iterations.face(1), Face::Sad);
    assert!(!iterations.is_solved());
}

#[test]
fn solved_means_equal_to_the_goal() {
    assert!(loaded(vec![1, 2, 3, 4], vec![1, 2, 3, 4]).is_solved());
    assert!(!loaded(vec![1, 2, 3, 4], vec![1, 2, 3, 5]).is_solved());
    assert!(GridIterations::default().is_solved());
    let unloaded = GridIterations { grid: vec![], goal: vec![1], max: 50 };
    assert!(!unloaded.is_solved());
    assert!(same_cells(&vec![], &vec![]));
    assert!(!same_cells(&vec![1], &vec![1, 1]));
    assert!(!same_cells(&vec![1, 2], &vec![2, 1]));
}

#[test]
fn cap_is_reached_at_max_generations() {
    let mut iterations = loaded(vec![0; 4], vec![1; 4]);
    iterations.max = 2;
    assert!(!iterations.at_cap());
    iterations.step(&PlayerRules::default());
    assert!(iterations.at_cap());
    iterations.step(&PlayerRules::default());
    assert!(iterations.at_cap());
}

#[test]
fn painting_overwrites_one_cell_of_the_last_generation() {
    let mut iterations = loaded(vec![0; 4], vec![1; 4]);
    iterations.step(&PlayerRules::default());
    iterations.paint(2, Tile::Pink);
    assert_eq!(iterations.grid, vec![vec![0, 0, 0, 0], vec![0, 0, 7, 0]]);
    iterations.paint(0, Tile::Empty);
    assert_eq!(iterations.current(), &vec![8, 0, 7, 0]);
}
