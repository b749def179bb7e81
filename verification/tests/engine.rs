use snake_game::direction::Direction;
use snake_game::game::{Game, GameError};
use snake_game::random::RandomSource;

/// Splits a backup text into its direction letter, food coordinate, and
/// snake coordinates.
fn split_backup(text: &str) -> (String, (usize, usize), Vec<(usize, usize)>) {
    let parts: Vec<&str> = text.split(',').collect();
    assert!(parts.len() >= 5, "backup too short: {text}");
    assert!(parts.len() % 2 == 1, "backup has a dangling token: {text}");
    let dir = parts[0].to_string();
    let nums: Vec<usize> = parts[1..].iter().map(|t| t.parse().unwrap()).collect();
    let food = (nums[0], nums[1]);
    let snake: Vec<(usize, usize)> = nums[2..].chunks(2).map(|p| (p[0], p[1])).collect();
    (dir, food, snake)
}

fn score_line(text: &str) -> String {
    text.lines().last().unwrap().to_string()
}

#[test]
fn new_game_is_deterministic() {
    let g = Game::new();
    assert_eq!(g.create_backup(), "u,5,5,0,0");
    assert_eq!(g.get_highscore(), 0);
    assert!(matches!(g.get_current_direction(), Direction::Up));
}

#[test]
fn new_game_renders_exactly() {
    let g = Game::new();
    let expected = "🟢⬛⬛⬛⬛⬛\n⬛⬛⬛⬛⬛⬛\n⬛⬛⬛⬛⬛⬛\n⬛⬛⬛⬛⬛⬛\n⬛⬛⬛⬛⬛⬛\n⬛⬛⬛⬛⬛🍎\n\nScore: 0";
    assert_eq!(g.to_string(), expected);
}

#[test]
fn setup_with_fixed_source_places_snake_and_food() {
    let mut g = Game::new();
    let mut rng = RandomSource::fixed(vec![2, 3, 0]);
    g.setup(&mut rng);
    // The snake lands on (2,3); the first free cell in scan order is (0,0).
    assert_eq!(g.create_backup(), "u,0,0,2,3");
    // A length-one snake accepts all four directions.
    let dirs = g.get_directions();
    assert!(dirs.3.is_some());
    let (_, food, snake) = split_backup(&g.create_backup());
    assert_eq!(snake.len(), 1);
    assert_ne!(food, snake[0]);
    assert_eq!(score_line(&g.to_string()), "Score: 0");
}

#[test]
fn first_move_slides_a_length_one_snake() {
    let mut g = Game::new();
    let mut rng = RandomSource::fixed(vec![2, 3, 0]);
    g.setup(&mut rng);
    // Food sits at (0,0); moving up from (2,3) cannot reach it.
    let r = g.move_snake(Direction::Up, &mut rng);
    assert_eq!(r, Ok(()));
    let (dir, food, snake) = split_backup(&g.create_backup());
    assert_eq!(dir, "u");
    assert_eq!(food, (0, 0));
    assert_eq!(snake, vec![(2, 2)]);
    assert_eq!(score_line(&g.to_string()), "Score: 0");
}

#[test]
fn reversal_is_rejected_and_changes_nothing() {
    let mut g = Game::new();
    let mut rng = RandomSource::system();
    assert_eq!(g.import("u,2,3,1,1,1,2".to_string()), Ok(()));
    let before = g.create_backup();
    let r = g.move_snake(Direction::Down, &mut rng);
    assert_eq!(r, Err(GameError::InvalidDirection));
    assert_eq!(g.create_backup(), before);
    assert!(matches!(g.get_current_direction(), Direction::Up));
}

#[test]
fn accepted_directions_exclude_only_the_reversal() {
    let mut g = Game::new();
    assert_eq!(g.import("u,2,3,1,1,1,2".to_string()), Ok(()));
    let dirs = g.get_directions();
    assert!(matches!(dirs.0, Direction::Up));
    assert!(matches!(dirs.1, Direction::Left));
    assert!(matches!(dirs.2, Direction::Right));
    assert!(dirs.3.is_none());
}

#[test]
fn advance_moves_head_and_drops_tail() {
    let mut g = Game::new();
    let mut rng = RandomSource::system();
    assert_eq!(g.import("u,5,5,1,1,1,2".to_string()), Ok(()));
    // Head (1,2), tail (1,1): moving up enters the vacated tail cell.
    let r = g.move_snake(Direction::Up, &mut rng);
    assert_eq!(r, Ok(()));
    assert_eq!(g.create_backup(), "u,5,5,1,2,1,1");
    assert_eq!(score_line(&g.to_string()), "Score: 1");
}

#[test]
fn eating_grows_scores_and_relocates_food() {
    let mut g = Game::new();
    // Food (2,1) straight above the head (2,2).
    assert_eq!(g.import("u,2,1,2,3,2,2".to_string()), Ok(()));
    assert_eq!(g.get_highscore(), 0);
    let mut rng = RandomSource::fixed(vec![0]);
    let r = g.move_snake(Direction::Up, &mut rng);
    assert_eq!(r, Ok(()));
    let (dir, food, snake) = split_backup(&g.create_backup());
    assert_eq!(dir, "u");
    assert_eq!(snake, vec![(2, 3), (2, 2), (2, 1)]);
    // The first free cell in scan order is (0,0).
    assert_eq!(food, (0, 0));
    assert!(!snake.contains(&food));
    assert_eq!(score_line(&g.to_string()), "Score: 2");
    assert_eq!(g.get_highscore(), 2);
}

#[test]
fn wall_hit_resets_the_episode() {
    let mut g = Game::new();
    let mut rng = RandomSource::fixed(vec![4, 4, 0]);
    assert_eq!(g.import("u,2,3,1,1,1,0".to_string()), Ok(()));
    g.import_highscore(9);
    // The head sits on the top edge; moving up leaves the grid.
    let r = g.move_snake(Direction::Up, &mut rng);
    assert_eq!(r, Ok(()));
    let (dir, food, snake) = split_backup(&g.create_backup());
    assert_eq!(dir, "u");
    assert_eq!(snake.len(), 1);
    assert_ne!(food, snake[0]);
    assert_eq!(score_line(&g.to_string()), "Score: 0");
    assert_eq!(g.get_highscore(), 9);
}

#[test]
fn self_hit_resets_the_episode() {
    let mut g = Game::new();
    let mut rng = RandomSource::fixed(vec![0, 0, 1]);
    // Head (3,2); moving left enters (2,2), which stays occupied.
    assert_eq!(g.import("u,0,0,1,2,2,2,2,3,3,3,3,2".to_string()), Ok(()));
    g.import_highscore(7);
    let r = g.move_snake(Direction::Left, &mut rng);
    assert_eq!(r, Ok(()));
    let (_, food, snake) = split_backup(&g.create_backup());
    assert_eq!(snake.len(), 1);
    assert_ne!(food, snake[0]);
    assert_eq!(score_line(&g.to_string()), "Score: 0");
    assert_eq!(g.get_highscore(), 7);
}

#[test]
fn moving_into_the_tail_cell_is_not_a_self_hit() {
    let mut g = Game::new();
    let mut rng = RandomSource::system();
    // A 2x2 loop: head (3,2), tail (2,2); moving left re-enters the
    // tail cell just as it empties.
    assert_eq!(g.import("u,0,0,2,2,2,3,3,3,3,2".to_string()), Ok(()));
    let r = g.move_snake(Direction::Left, &mut rng);
    assert_eq!(r, Ok(()));
    assert_eq!(g.create_backup(), "l,0,0,2,3,3,3,3,2,2,2");
    assert_eq!(score_line(&g.to_string()), "Score: 3");
}

#[test]
fn filling_the_board_resets_after_counting_the_score() {
    // A serpentine path covering the grid: the snake holds the first 35
    // cells, the food the last one.
    let mut path: Vec<(usize, usize)> = Vec::new();
    for y in 0..6 {
        for i in 0..6 {
            let x = if y % 2 == 0 { i } else { 5 - i };
            path.push((x, y));
        }
    }
    let food = path[35];
    let snake = &path[..35];
    let mut text = String::from("l");
    text += &format!(",{},{}", food.0, food.1);
    for c in snake {
        text += &format!(",{},{}", c.0, c.1);
    }
    let mut g = Game::new();
    assert_eq!(g.import(text), Ok(()));
    assert_eq!(score_line(&g.to_string()), "Score: 34");
    let mut rng = RandomSource::fixed(vec![1, 1, 3]);
    let r = g.move_snake(Direction::Left, &mut rng);
    assert_eq!(r, Ok(()));
    // The grown snake filled the board: the score peaked at 35 and the
    // episode restarted.
    assert_eq!(g.get_highscore(), 35);
    let (_, _, snake_after) = split_backup(&g.create_backup());
    assert_eq!(snake_after.len(), 1);
    assert_eq!(score_line(&g.to_string()), "Score: 0");
}

#[test]
fn high_score_import_and_query() {
    let mut g = Game::new();
    assert_eq!(g.get_highscore(), 0);
    g.import_highscore(42);
    assert_eq!(g.get_highscore(), 42);
}

#[test]
fn random_play_keeps_the_invariants() {
    let mut g = Game::new();
    let mut rng = RandomSource::system();
    g.setup(&mut rng);
    for _ in 0..300 {
        let dirs = g.get_directions();
        assert_eq!(g.move_snake(dirs.0, &mut rng), Ok(()));
        let (_, food, snake) = split_backup(&g.create_backup());
        assert!(food.0 < 6 && food.1 < 6);
        assert!(!snake.contains(&food), "food on the snake");
        for (i, a) in snake.iter().enumerate() {
            assert!(a.0 < 6 && a.1 < 6);
            for b in &snake[i + 1..] {
                assert_ne!(a, b, "duplicate snake coordinate");
            }
        }
        let expected = format!("Score: {}", snake.len() - 1);
        assert_eq!(score_line(&g.to_string()), expected);
    }
}

#[test]
fn direction_emojis() {
    assert_eq!(Direction::Up.get_emoji(), "⬆️");
    assert_eq!(Direction::Down.get_emoji(), "⬇️");
    assert_eq!(Direction::Left.get_emoji(), "⬅️");
    assert_eq!(Direction::Right.get_emoji(), "➡️");
}

#[test]
fn direction_codes_and_import() {
    assert_eq!(Direction::Up.as_str(), "u");
    assert_eq!(Direction::Down.as_str(), "d");
    assert_eq!(Direction::Left.as_str(), "l");
    assert_eq!(Direction::Right.as_str(), "r");
    let mut d = Direction::Up;
    d.import_str("d");
    assert!(matches!(d, Direction::Down));
    d.import_str("x");
    assert!(matches!(d, Direction::Down));
    d.import_str("rr");
    assert!(matches!(d, Direction::Down));
    d.import_str("l");
    assert!(matches!(d, Direction::Left));
}

#[test]
fn valid_direction_tables() {
    assert!(matches!(
        Direction::Up.get_valid_dir(),
        (Direction::Up, Direction::Left, Direction::Right)
    ));
    assert!(matches!(
        Direction::Down.get_valid_dir(),
        (Direction::Down, Direction::Left, Direction::Right)
    ));
    assert!(matches!(
        Direction::Left.get_valid_dir(),
        (Direction::Left, Direction::Up, Direction::Down)
    ));
    assert!(matches!(
        Direction::Right.get_valid_dir(),
        (Direction::Right, Direction::Up, Direction::Down)
    ));
}

#[test]
fn default_matches_new() {
    let d = Game::default();
    let n = Game::new();
    assert_eq!(d.create_backup(), n.create_backup());
    assert_eq!(d.to_string(), n.to_string());
    assert_eq!(d.get_highscore(), n.get_highscore());
}
