use snake_game::direction::Direction;
use snake_game::game::{Game, GameError};
use snake_game::random::RandomSource;

#[test]
fn import_reconstructs_the_encoded_state() {
    let mut g = Game::new();
    let r = g.import("u,2,3,1,1,1,2".to_string());
    assert_eq!(r, Ok(()));
    assert!(matches!(g.get_current_direction(), Direction::Up));
    assert_eq!(g.create_backup(), "u,2,3,1,1,1,2");
    let rendered = g.to_string();
    assert_eq!(rendered.lines().last().unwrap(), "Score: 1");
}

#[test]
fn imported_state_renders_exactly() {
    let mut g = Game::new();
    assert_eq!(g.import("u,2,3,1,1,1,2".to_string()), Ok(()));
    let expected = "⬛⬛⬛⬛⬛⬛\n⬛🟩⬛⬛⬛⬛\n⬛🟢⬛⬛⬛⬛\n⬛⬛🍎⬛⬛⬛\n⬛⬛⬛⬛⬛⬛\n⬛⬛⬛⬛⬛⬛\n\nScore: 1";
    assert_eq!(g.to_string(), expected);
}

#[test]
fn round_trip_reproduces_the_backup() {
    let mut rng = RandomSource::system();
    let mut g = Game::new();
    g.setup(&mut rng);
    for _ in 0..40 {
        let dirs = g.get_directions();
        assert_eq!(g.move_snake(dirs.0, &mut rng), Ok(()));
        let text = g.create_backup();
        let mut h = Game::new();
        assert_eq!(h.import(text.clone()), Ok(()));
        assert_eq!(h.create_backup(), text);
        assert_eq!(
            h.to_string().lines().last().unwrap(),
            g.to_string().lines().last().unwrap()
        );
    }
}

#[test]
fn malformed_backups_are_rejected_and_change_nothing() {
    let cases = [
        "",
        "u",
        "u,2,3",
        "u,2,3,1",
        "u,2,3,1,1,1",
        "x,2,3,1,1",
        "U,2,3,1,1",
        "u,9,3,1,1",
        "u,2,3,1,6",
        "u,2,3,1,1,1,2,",
        "u,2,3,,1,1,2",
        "u,02,3,1,1",
        "u,2,3,1 1,1,2",
        "u,2,3,a,1",
        "u,-1,3,1,1",
    ];
    for case in cases {
        let mut g = Game::new();
        let before = g.create_backup();
        let r = g.import(case.to_string());
        assert_eq!(r, Err(GameError::MalformedBackup), "accepted: {case:?}");
        assert_eq!(g.create_backup(), before, "state changed on: {case:?}");
    }
}

#[test]
fn backups_breaking_the_invariants_are_rejected() {
    // A repeated snake coordinate.
    let mut g = Game::new();
    assert_eq!(
        g.import("u,2,3,1,1,1,1".to_string()),
        Err(GameError::MalformedBackup)
    );
    // Food on a snake coordinate.
    assert_eq!(
        g.import("u,1,1,1,1".to_string()),
        Err(GameError::MalformedBackup)
    );
}

#[test]
fn import_accepts_every_direction_code() {
    for (code, expect) in [
        ("u", Direction::Up),
        ("d", Direction::Down),
        ("l", Direction::Left),
        ("r", Direction::Right),
    ] {
        let mut g = Game::new();
        let text = format!("{code},2,3,1,1");
        assert_eq!(g.import(text.clone()), Ok(()));
        assert_eq!(g.get_current_direction(), expect);
        assert_eq!(g.create_backup(), text);
    }
}

#[test]
fn import_score_follows_snake_length() {
    let mut g = Game::new();
    assert_eq!(g.import("d,0,0,5,5".to_string()), Ok(()));
    assert_eq!(g.to_string().lines().last().unwrap(), "Score: 0");
    assert_eq!(g.import("r,0,0,3,3,3,4,4,4".to_string()), Ok(()));
    assert_eq!(g.to_string().lines().last().unwrap(), "Score: 2");
}
