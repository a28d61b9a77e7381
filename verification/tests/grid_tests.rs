use snake::game::{
    apply_key, between_1_and_20, ending, is_playing, sleep_time, terminal_too_small, tick, Ending,
};
use snake::grid::{GameState, Grid, Key};
use snake::snake::Cell;

fn in_apple_range(grid: &Grid, cell: (u16, u16)) -> bool {
    let (x, y) = cell;
    if grid.has_wall() {
        2 <= x && x < grid.width() - 1 && 3 <= y && y < grid.height() - 1
    } else {
        1 <= x && x < grid.width() && 2 <= y && y < grid.height()
    }
}

fn snake_cells(grid: &Grid) -> Vec<(u16, u16)> {
    (0..grid.snake().length()).map(|i| grid.snake().cell(i)).collect()
}

#[test]
fn new_grid_puts_the_snake_in_the_middle() {
    let grid = Grid::new(20, 10, false, 1);
    assert_eq!(snake_cells(&grid), vec![(10, 5), (9, 5)]);
    assert_eq!(grid.cell_to_clean(), (9, 5));
    assert_eq!(grid.score(), 0);
    assert_eq!(grid.difficulty(), 1);
    assert_eq!((grid.width(), grid.height(), grid.has_wall()), (20, 10, false));
}

#[test]
fn new_grid_puts_the_apple_on_a_free_cell() {
    for _ in 0..200 {
        let grid = Grid::new(20, 10, false, 1);
        let apple = grid.apple();
        assert!(in_apple_range(&grid, apple));
        assert!(!grid.snake().is_on(apple.0, apple.1));
        let grid = Grid::new(20, 10, true, 1);
        let apple = grid.apple();
        assert!(in_apple_range(&grid, apple));
        assert!(!grid.snake().is_on(apple.0, apple.1));
    }
}

#[test]
fn apple_takes_the_only_free_cell() {
    // walls leave column 2 and rows 3 and 4; the snake is on (2, 3)
    for _ in 0..20 {
        let grid = Grid::try_new(4, 6, true, 1).unwrap();
        assert_eq!(grid.apple(), (2, 4));
    }
}

#[test]
fn try_new_refuses_what_cannot_be_played() {
    assert!(Grid::try_new(1, 10, false, 1).is_none());
    assert!(Grid::try_new(20, 5, false, 1).is_none());
    // walls leave no column for the apple
    assert!(Grid::try_new(3, 6, true, 1).is_none());
    assert!(Grid::try_new(20, 10, false, 1).is_some());
}

#[test]
fn score_to_win_is_the_free_area() {
    let grid = Grid::new(20, 10, false, 1);
    assert_eq!(grid.score_to_win(), 18 * 8 - 2);
    let grid = Grid::new(20, 10, true, 1);
    assert_eq!(grid.score_to_win(), 16 * 6 - 2);
}

#[test]
fn can_update_needs_a_score_to_win_unless_the_move_kills() {
    // a walled field 4 columns wide has no score to win, but heading right
    // the first move hits the wall and ends the game before any score
    let mut grid = Grid::try_new(4, 6, true, 1).unwrap();
    assert!(!grid.score_to_win_fits());
    assert!(grid.snake().move_kills(4, 6, true));
    assert!(grid.can_update());
    assert_eq!(grid.update(), GameState::GameOver);
    assert_eq!(snake_cells(&grid), vec![(2, 3), (1, 3)]);
    assert_eq!(grid.cell_to_clean(), (1, 3));
    // heading down the move survives, and then the score is needed
    let mut grid = Grid::try_new(4, 6, true, 1).unwrap();
    grid.control(Key::Down);
    assert!(!grid.snake().move_kills(4, 6, true));
    assert!(!grid.can_update());
    let grid = Grid::new(20, 10, true, 1);
    assert!(grid.can_update());
    assert!(grid.score_fits());
    assert!(grid.score_to_win_fits());
}

#[test]
fn place_apple_only_on_a_free_cell() {
    let mut grid = Grid::new(20, 10, false, 1);
    assert!(!grid.place_apple(10, 5));
    assert!(!grid.place_apple(9, 5));
    assert_ne!(grid.apple(), (10, 5));
    assert!(grid.place_apple(3, 3));
    assert_eq!(grid.apple(), (3, 3));
    let mut grid = Grid::new(20, 10, false, 1);
    assert!(grid.place_apple(11, 5));
    // the snake eats it on its first move and grows
    assert_eq!(grid.update(), GameState::Running);
    assert_eq!(snake_cells(&grid), vec![(11, 5), (10, 5), (9, 5)]);
    assert_eq!(grid.score(), 1);
    assert_ne!(grid.apple(), (11, 5));
}

#[test]
fn first_free_draw_becomes_the_apple() {
    let mut grid = Grid::new(20, 10, false, 1);
    let draws = vec![Cell { x: 10, y: 5 }, Cell { x: 9, y: 5 }, Cell { x: 4, y: 7 }, Cell { x: 6, y: 2 }];
    assert_eq!(grid.place_first_free(&draws), Some(2));
    assert_eq!(grid.apple(), (4, 7));
    let apple = grid.apple();
    let taken = vec![Cell { x: 10, y: 5 }, Cell { x: 9, y: 5 }];
    assert_eq!(grid.place_first_free(&taken), None);
    assert_eq!(grid.apple(), apple);
    assert_eq!(grid.place_first_free(&Vec::new()), None);
}

#[test]
fn tick_moves_only_a_running_game() {
    let mut grid = Grid::new(20, 10, false, 1);
    assert_eq!(tick(GameState::Pause, &mut grid), (GameState::Pause, false));
    assert_eq!(snake_cells(&grid), vec![(10, 5), (9, 5)]);
    assert_eq!(tick(GameState::GameOver, &mut grid), (GameState::GameOver, false));
    assert!(grid.place_apple(3, 3));
    assert_eq!(tick(GameState::Running, &mut grid), (GameState::Running, true));
    assert_eq!(snake_cells(&grid), vec![(11, 5), (10, 5)]);
    assert_eq!(grid.cell_to_clean(), (9, 5));
}

#[test]
fn playing_and_endings() {
    assert!(is_playing(GameState::Running));
    assert!(is_playing(GameState::Pause));
    assert!(!is_playing(GameState::GameOver));
    assert!(!is_playing(GameState::Win));
    assert_eq!(ending(GameState::GameOver), Some(Ending::Lost));
    assert_eq!(ending(GameState::Win), Some(Ending::Won));
    assert_eq!(ending(GameState::Running), None);
    assert_eq!(ending(GameState::Pause), None);
}

#[test]
fn game_is_won_once_the_score_is_reached() {
    // a score of zero wins right away
    let mut grid = Grid::new(5, 6, true, 1);
    assert_eq!(grid.score_to_win(), 0);
    assert_eq!(grid.update(), GameState::Win);
    assert_eq!(grid.snake().cell(0), (3, 3));
    // a won grid can still step: here the next move hits the right wall
    assert!(grid.can_update());
    assert_eq!(grid.update(), GameState::GameOver);
    assert_eq!(grid.snake().cell(0), (3, 3));
}

#[test]
fn game_is_lost_on_a_wall() {
    let mut grid = Grid::new(10, 8, true, 1);
    for _ in 0..3 {
        assert_eq!(grid.update(), GameState::Running);
    }
    assert_eq!(grid.snake().cell(0), (8, 4));
    let before = snake_cells(&grid);
    assert_eq!(grid.update(), GameState::GameOver);
    assert_eq!(snake_cells(&grid), before);
}

#[test]
fn update_remembers_the_tail_to_clean() {
    let mut grid = Grid::new(20, 10, false, 1);
    let tail = grid.snake().cell(grid.snake().length() - 1);
    grid.update();
    assert_eq!(grid.cell_to_clean(), tail);
}

#[test]
fn random_games_keep_the_grid_consistent() {
    let mut seed: u32 = 12345;
    for game in 0..30 {
        let wall = game % 2 == 0;
        let mut grid = Grid::new(12, 9, wall, 1);
        let mut state = GameState::Running;
        let mut steps = 0;
        while state == GameState::Running && steps < 400 {
            seed = seed.wrapping_mul(1103515245).wrapping_add(12345);
            let key = match (seed >> 16) % 6 {
                0 => Key::Left,
                1 => Key::Up,
                2 => Key::Right,
                3 => Key::Down,
                _ => Key::Other,
            };
            state = apply_key(state, &mut grid, key);
            let apple = grid.apple();
            let len = grid.snake().length();
            let score = grid.score();
            state = grid.update();
            steps += 1;
            let cells = snake_cells(&grid);
            match state {
                GameState::Running => {
                    if cells[0] == apple {
                        assert_eq!(grid.snake().length(), len + 1);
                        assert_eq!(grid.score(), score + 1);
                        assert_ne!(grid.apple(), apple);
                    } else {
                        assert_eq!(grid.snake().length(), len);
                        assert_eq!(grid.apple(), apple);
                    }
                    assert!(in_apple_range(&grid, grid.apple()));
                    assert!(!grid.snake().is_on(grid.apple().0, grid.apple().1));
                    assert!(grid.score() <= grid.score_to_win());
                    for i in 0..cells.len() {
                        for j in 0..i {
                            assert_ne!(cells[i], cells[j]);
                        }
                    }
                },
                GameState::GameOver => assert_eq!(grid.snake().length(), len),
                GameState::Win => assert_eq!(grid.score(), grid.score_to_win()),
                GameState::Pause => unreachable!(),
            }
        }
    }
}

#[test]
fn difficulty_stays_between_1_and_20() {
    let mut grid = Grid::new(20, 10, false, 1);
    grid.difficulty_down();
    assert_eq!(grid.difficulty(), 1);
    let mut grid = Grid::new(20, 10, false, 20);
    grid.difficulty_up();
    assert_eq!(grid.difficulty(), 20);
}

#[test]
fn difficulty_steps_undo_each_other() {
    let mut grid = Grid::new(20, 10, false, 5);
    grid.difficulty_up();
    assert_eq!(grid.difficulty(), 6);
    grid.difficulty_down();
    assert_eq!(grid.difficulty(), 5);
    grid.difficulty_down();
    grid.difficulty_up();
    assert_eq!(grid.difficulty(), 5);
}

#[test]
fn num_length_counts_digits() {
    assert_eq!(Grid::get_num_length(0), 1);
    assert_eq!(Grid::get_num_length(9), 1);
    assert_eq!(Grid::get_num_length(10), 2);
    assert_eq!(Grid::get_num_length(99), 2);
    assert_eq!(Grid::get_num_length(100), 3);
    assert_eq!(Grid::get_num_length(999), 3);
    assert_eq!(Grid::get_num_length(1000), 4);
    assert_eq!(Grid::get_num_length(9999), 4);
}

#[test]
fn sleep_time_shrinks_with_difficulty() {
    assert_eq!(sleep_time(1), 200);
    assert_eq!(sleep_time(2), 190);
    assert_eq!(sleep_time(20), 10);
    assert!(sleep_time(8) < sleep_time(7));
}

#[test]
fn difficulty_argument_is_read_from_1_to_20() {
    assert_eq!(between_1_and_20("7"), Ok(7));
    assert_eq!(between_1_and_20("1"), Ok(1));
    assert_eq!(between_1_and_20("20"), Ok(20));
    assert!(between_1_and_20("0").is_err());
    assert!(between_1_and_20("21").is_err());
    assert!(between_1_and_20("300").is_err());
    assert!(between_1_and_20("abc").is_err());
    assert!(between_1_and_20("").is_err());
}

#[test]
fn terminal_must_be_32_by_6() {
    assert!(terminal_too_small(31, 10));
    assert!(terminal_too_small(40, 5));
    assert!(!terminal_too_small(32, 6));
}

#[test]
fn keys_drive_the_game() {
    let mut grid = Grid::new(20, 10, false, 5);
    assert_eq!(apply_key(GameState::Running, &mut grid, Key::Space), GameState::Pause);
    assert_eq!(apply_key(GameState::Pause, &mut grid, Key::Space), GameState::Running);
    assert_eq!(apply_key(GameState::Running, &mut grid, Key::Esc), GameState::GameOver);
    assert_eq!(apply_key(GameState::Pause, &mut grid, Key::PageUp), GameState::Pause);
    assert_eq!(grid.difficulty(), 6);
    assert_eq!(apply_key(GameState::Running, &mut grid, Key::PageDown), GameState::Running);
    assert_eq!(grid.difficulty(), 5);
    // a turn while paused still counts
    assert_eq!(apply_key(GameState::Pause, &mut grid, Key::Up), GameState::Pause);
    grid.update();
    assert_eq!(grid.snake().cell(0), (10, 4));
    // reversing is ignored
    apply_key(GameState::Running, &mut grid, Key::Down);
    grid.update();
    assert_eq!(grid.snake().cell(0), (10, 3));
}
