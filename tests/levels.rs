use push_box::cell::Cell;
use push_box::debounce::Debounce;
use push_box::game::{button_action, pick_direction, Action, FrameAction, Game, Phase, LEVEL_COUNT};
use push_box::cell::Direction;
use push_box::level::{normalize_line_endings, parse_level, LevelError, MAP_SIZE};
use push_box::puzzle::StepOutcome;

const SMALL: &str = "1111\r\n1242\r\n1532\r\n1111\r\n";

#[test]
fn crlf_becomes_lf() {
    assert_eq!(normalize_line_endings(b"ab\r\ncd\r\r\n\n\r"), b"ab\ncd\r\n\n\r".to_vec());
    assert_eq!(normalize_line_endings(b""), Vec::<u8>::new());
}

#[test]
fn parse_inverts_rows() {
    let g = parse_level(SMALL.as_bytes(), 4).unwrap();
    assert_eq!(g.size, 4);
    // last text line is row 0
    assert_eq!(g.get(0, 0), Cell::Wall);
    assert_eq!(g.get(1, 1), Cell::PlayerDown);
    assert_eq!(g.get(2, 1), Cell::Box);
    assert_eq!(g.get(3, 1), Cell::Floor);
    assert_eq!(g.get(2, 2), Cell::Target);
    assert_eq!(g.get(1, 2), Cell::Floor);
    assert_eq!(g.get(3, 3), Cell::Wall);
    let lf = parse_level(SMALL.replace("\r\n", "\n").as_bytes(), 4).unwrap();
    assert_eq!(lf.cells, g.cells);
}

#[test]
fn parse_without_final_newline() {
    let g = parse_level(b"12\n95", 2).unwrap();
    assert_eq!(g.get(0, 1), Cell::Wall);
    assert_eq!(g.get(1, 1), Cell::Floor);
    assert_eq!(g.get(0, 0), Cell::BoxOnTarget);
    assert_eq!(g.get(1, 0), Cell::PlayerDown);
}

#[test]
fn parse_errors() {
    assert_eq!(parse_level(b"12\n9", 2).err(), Some(LevelError::Truncated));
    assert_eq!(parse_level(b"", MAP_SIZE).err(), Some(LevelError::Truncated));
    assert_eq!(parse_level(b"12\n9x\n", 2).err(), Some(LevelError::BadCell { row: 1, col: 1 }));
    assert_eq!(parse_level(b"1a\nxx\n", 2).err(), Some(LevelError::BadCell { row: 0, col: 1 }));
}

#[test]
fn digits_round_trip() {
    for d in 0u8..10 {
        let c = Cell::from_digit(b'0' + d).unwrap();
        assert_eq!(c.digit(), d);
    }
    assert_eq!(Cell::from_digit(b'a'), None);
    assert_eq!(Cell::PlayerRight.digit(), 6);
    assert_eq!(Cell::PlayerLeft.digit(), 7);
}

#[test]
fn level_advance_wraps() {
    let mut g = Game::new();
    g.level = LEVEL_COUNT;
    g.advance_on_win();
    assert_eq!(g.level, 1);
    assert_eq!(g.phase, Phase::AwaitingLoad);
    g.level = 7;
    g.advance_on_win();
    assert_eq!(g.level, 8);
    let d = Game::default();
    assert_eq!(d.level, 1);
    assert!(d.needs_update);
}

#[test]
fn game_loop_from_load_to_next_level() {
    let mut g = Game::new();
    assert_eq!(g.frame(None), FrameAction::Retry);
    assert_eq!(g.phase, Phase::AwaitingLoad);
    let grid = parse_level(SMALL.as_bytes(), 4).unwrap();
    assert_eq!(g.frame(Some(grid)), FrameAction::Installed);
    assert_eq!(g.phase, Phase::Playing);
    assert_eq!(g.frame(None), FrameAction::Idle);
    g.action = Some(Action::Move(Direction::Up));
    assert_eq!(g.update(), Some(StepOutcome::Moved));
    assert!(g.action.is_none());
    assert!(g.needs_update);
    assert_eq!(g.frame(None), FrameAction::Redraw);
    assert_eq!(g.frame(None), FrameAction::Idle);
    g.action = Some(Action::Restart);
    assert_eq!(g.update(), None);
    g.action = Some(Action::Move(Direction::Down));
    assert_eq!(g.update(), Some(StepOutcome::Moved));
    g.action = Some(Action::Move(Direction::Right));
    assert_eq!(g.update(), Some(StepOutcome::Pushed));
    g.action = Some(Action::Move(Direction::Right));
    assert_eq!(g.update(), Some(StepOutcome::Blocked));
    let p = g.puzzle.as_ref().unwrap();
    assert_eq!((p.x, p.y), (2, 1));
    assert_eq!(p.grid.get(3, 1), Cell::Box);
    assert!(g.needs_update);
    assert_eq!(g.frame(None), FrameAction::Redraw);

    let solved = parse_level(b"1111\n1512\n1922\n1111\n", 4).unwrap();
    let mut g = Game::new();
    g.level = LEVEL_COUNT;
    assert_eq!(g.frame(Some(solved)), FrameAction::Installed);
    g.needs_update = true;
    let before = g.puzzle.as_ref().unwrap().grid.cells.clone();
    assert_eq!(g.frame(None), FrameAction::Reload(1));
    assert_eq!(g.level, 1);
    assert_eq!(g.phase, Phase::AwaitingLoad);
    let kept = g.puzzle.as_ref().unwrap();
    assert_eq!(kept.grid.cells, before);
    assert_eq!((kept.x, kept.y), (1, 2));
    assert_eq!(kept.covered, Cell::Floor);
    // the solved puzzle is kept while the next level is unavailable
    assert_eq!(g.frame(None), FrameAction::Retry);
    assert!(g.puzzle.is_some());
    assert!(!g.win());
    assert_eq!(g.level, 1);
    // and replaced once it arrives
    let next = parse_level(SMALL.as_bytes(), 4).unwrap();
    assert_eq!(g.frame(Some(next)), FrameAction::Installed);
    let p = g.puzzle.as_ref().unwrap();
    assert_eq!((p.x, p.y), (1, 1));
    assert_eq!(p.grid.get(2, 1), Cell::Box);
}

#[test]
fn win_moves_to_next_level() {
    let mut g = Game::new();
    let grid = parse_level(b"1111\n1532\n1222\n1111\n", 4).unwrap();
    assert!(g.load_complete(grid));
    assert!(!g.win());
    assert_eq!(g.level, 1);
    let grid = parse_level(b"1111\n1592\n1222\n1111\n", 4).unwrap();
    let mut g = Game::new();
    assert!(g.load_complete(grid));
    let before = g.puzzle.as_ref().unwrap().grid.cells.clone();
    assert!(g.win());
    assert_eq!(g.level, 2);
    assert_eq!(g.phase, Phase::AwaitingLoad);
    assert_eq!(g.puzzle.as_ref().unwrap().grid.cells, before);
    assert!(!g.win());
    assert_eq!(g.level, 2);
}

#[test]
fn actions_wait_until_level_is_playing() {
    let mut g = Game::new();
    g.action = Some(Action::Move(Direction::Left));
    assert_eq!(g.update(), None);
    assert_eq!(g.action, Some(Action::Move(Direction::Left)));
}

#[test]
fn level_without_start_is_rejected() {
    let mut g = Game::new();
    let grid = parse_level(b"1111\n1222\n1232\n1111\n", 4).unwrap();
    assert!(!g.load_complete(grid));
    assert_eq!(g.phase, Phase::AwaitingLoad);
    let grid = parse_level(b"1111\n1252\n1532\n1111\n", 4).unwrap();
    assert_eq!(g.frame(Some(grid)), FrameAction::Rejected);
    let grid = parse_level(b"1111\n1282\n1232\n1111\n", 4).unwrap();
    assert!(!g.load_complete(grid));
}

#[test]
fn burst_of_actions_applies_once() {
    let mut gate = Debounce::new(200);
    assert!(!gate.poll(100, true));
    assert!(gate.poll(100, true));
    assert!(!gate.poll(50, true));
    assert!(!gate.poll(50, true));
    assert!(!gate.poll(99, true));
    assert!(gate.poll(1, true));
    assert!(!gate.poll(500, false));
    assert_eq!(gate.elapsed, 200);
    assert!(gate.poll(0, true));
    assert_eq!(gate.elapsed, 0);
}

#[test]
fn held_keys_and_buttons() {
    assert_eq!(pick_direction(true, true, false, false), Some(Direction::Right));
    assert_eq!(pick_direction(true, true, true, true), Some(Direction::Down));
    assert_eq!(pick_direction(true, false, false, false), Some(Direction::Left));
    assert_eq!(pick_direction(false, false, false, false), None);
    assert_eq!(button_action(0), Some(Action::Previous));
    assert_eq!(button_action(3), Some(Action::Move(Direction::Up)));
    assert_eq!(button_action(6), Some(Action::Move(Direction::Down)));
    assert_eq!(button_action(7), None);
}
