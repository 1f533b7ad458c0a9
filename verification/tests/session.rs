use grid::tetris::game::GameState;
use grid::tetris::piece::PieceName;
use grid::tetris::session::{Command, Session};
use grid::tetris::source::PieceSource;

const TIOSZJ: [PieceName; 6] = [
    PieceName::T,
    PieceName::I,
    PieceName::O,
    PieceName::S,
    PieceName::Z,
    PieceName::J,
];

fn session_of(width: usize, height: usize, names: Vec<PieceName>) -> Session {
    let source = PieceSource::from_names(names).unwrap();
    Session::new(GameState::new(width, height, source).unwrap())
}

fn canonical() -> Session {
    session_of(10, 24, TIOSZJ.to_vec())
}

#[test]
fn keys_stand_for_commands() {
    assert_eq!(Command::from_key(b'j'), Some(Command::MoveLeft));
    assert_eq!(Command::from_key(68), Some(Command::MoveLeft));
    assert_eq!(Command::from_key(b'l'), Some(Command::MoveRight));
    assert_eq!(Command::from_key(67), Some(Command::MoveRight));
    assert_eq!(Command::from_key(b'k'), Some(Command::SoftDrop));
    assert_eq!(Command::from_key(66), Some(Command::SoftDrop));
    assert_eq!(Command::from_key(b'i'), Some(Command::HardDrop));
    assert_eq!(Command::from_key(65), Some(Command::HardDrop));
    assert_eq!(Command::from_key(b' '), Some(Command::HardDrop));
    assert_eq!(Command::from_key(b'd'), Some(Command::RotateLeft));
    assert_eq!(Command::from_key(b'f'), Some(Command::RotateRight));
    assert_eq!(Command::from_key(b's'), Some(Command::Hold));
    assert_eq!(Command::from_key(b'q'), Some(Command::Quit));
    let known = [68, 106, 67, 108, 66, 107, 65, 105, 32, 100, 102, 115, 113];
    for key in 0..=255u8 {
        assert_eq!(Command::from_key(key).is_some(), known.contains(&key));
    }
}

#[test]
fn a_session_runs_a_game_that_is_on() {
    let session = canonical();
    assert!(session.is_running());
    assert!(session.can_hold());
    assert_eq!(session.game().active().name, PieceName::T);
    assert_eq!(session.tick_millis(), 900);
    let over = session_of(10, 1, TIOSZJ.to_vec());
    assert!(!over.is_running());
    assert!(over.game().is_over());
}

#[test]
fn a_tick_lets_the_piece_fall_for_nothing() {
    let mut session = canonical();
    assert!(session.tick());
    assert_eq!(
        session.game().active().get_position(),
        vec![(1, 4), (2, 3), (2, 4), (2, 5)]
    );
    assert_eq!(session.game().score(), 0);
    for _ in 0..21 {
        assert!(session.tick());
    }
    assert_eq!(
        session.game().active().get_position(),
        vec![(22, 4), (23, 3), (23, 4), (23, 5)]
    );
    assert_eq!(session.game().active().name, PieceName::T);
    assert!(session.tick());
    assert_eq!(session.game().active().name, PieceName::I);
    assert_eq!(
        session.game().active().get_position(),
        vec![(0, 3), (0, 4), (0, 5), (0, 6)]
    );
    assert_eq!(session.game().score(), 0);
    assert!(!session.game().field().get(23, 4).empty);
}

#[test]
fn commands_move_and_turn_the_piece() {
    let mut session = canonical();
    assert!(!session.handle(Command::MoveLeft));
    assert_eq!(
        session.game().active().get_position(),
        vec![(0, 3), (1, 2), (1, 3), (1, 4)]
    );
    assert!(!session.handle(Command::MoveRight));
    assert!(!session.handle(Command::MoveRight));
    assert_eq!(
        session.game().active().get_position(),
        vec![(0, 5), (1, 4), (1, 5), (1, 6)]
    );
    assert!(!session.handle(Command::RotateLeft));
    assert_eq!(
        session.game().active().get_position(),
        vec![(1, 4), (2, 5), (1, 5), (0, 5)]
    );
    assert!(!session.handle(Command::RotateRight));
    assert_eq!(
        session.game().active().get_position(),
        vec![(0, 5), (1, 4), (1, 5), (1, 6)]
    );
    assert_eq!(session.game().score(), 0);
}

#[test]
fn a_soft_drop_is_paid_by_the_level() {
    let mut session = canonical();
    assert!(!session.handle(Command::SoftDrop));
    assert_eq!(session.game().score(), 1);
    assert!(!session.handle(Command::SoftDrop));
    assert_eq!(session.game().score(), 2);
    for _ in 0..20 {
        session.handle(Command::SoftDrop);
    }
    assert_eq!(session.game().score(), 22);
    assert!(!session.handle(Command::SoftDrop));
    assert_eq!(session.game().score(), 22);
    assert_eq!(session.game().active().name, PieceName::T);
}

#[test]
fn a_hard_drop_ends_the_wait_and_the_tick_locks() {
    let mut session = canonical();
    assert!(session.handle(Command::HardDrop));
    assert_eq!(session.game().score(), 44);
    assert_eq!(session.game().active().name, PieceName::T);
    assert!(session.tick());
    assert_eq!(session.game().active().name, PieceName::I);
    assert_eq!(session.game().score(), 44);
}

#[test]
fn a_piece_is_set_aside_once_between_locks() {
    let mut session = canonical();
    assert!(!session.handle(Command::Hold));
    assert!(!session.can_hold());
    assert_eq!(session.game().held(), Some(PieceName::T));
    assert_eq!(session.game().active().name, PieceName::I);
    assert!(!session.handle(Command::Hold));
    assert_eq!(session.game().held(), Some(PieceName::T));
    assert_eq!(session.game().active().name, PieceName::I);
    session.handle(Command::HardDrop);
    assert!(!session.can_hold());
    assert!(session.tick());
    assert!(session.can_hold());
    assert_eq!(session.game().active().name, PieceName::O);
    assert!(!session.handle(Command::Hold));
    assert_eq!(session.game().held(), Some(PieceName::O));
    assert_eq!(session.game().active().name, PieceName::T);
    assert!(!session.can_hold());
}

#[test]
fn quitting_ends_play() {
    let mut session = canonical();
    assert!(session.handle(Command::Quit));
    assert!(!session.is_running());
    assert!(!session.game().is_over());
    let at = session.game().active().get_position();
    assert!(session.handle(Command::MoveLeft));
    assert!(session.handle(Command::HardDrop));
    assert!(!session.tick());
    assert_eq!(session.game().active().get_position(), at);
    assert_eq!(session.game().score(), 0);
}

#[test]
fn play_ends_when_the_game_is_over() {
    let mut session = session_of(10, 4, vec![PieceName::O; 6]);
    assert!(session.handle(Command::HardDrop));
    assert!(session.tick());
    assert!(session.is_running());
    assert!(session.handle(Command::HardDrop));
    assert!(!session.tick());
    assert!(!session.is_running());
    assert!(session.game().is_over());
    assert_eq!(session.game().score(), 4);
    assert!(!session.tick());
    assert!(session.handle(Command::MoveLeft));
}

#[test]
fn holding_can_end_the_game() {
    let mut session = session_of(10, 2, vec![
        PieceName::I,
        PieceName::I,
        PieceName::O,
        PieceName::I,
        PieceName::I,
        PieceName::I,
    ]);
    assert!(session.handle(Command::HardDrop));
    assert_eq!(session.game().score(), 2);
    assert!(session.tick());
    assert_eq!(session.game().active().name, PieceName::I);
    assert_eq!(
        session.game().active().get_position(),
        vec![(0, 3), (0, 4), (0, 5), (0, 6)]
    );
    assert!(session.handle(Command::Hold));
    assert!(!session.is_running());
    assert!(session.game().is_over());
    assert_eq!(session.game().held(), Some(PieceName::I));
    assert_eq!(session.game().active().name, PieceName::O);
    assert!(session.game().field().get(0, 3).empty);
    assert!(!session.game().field().get(1, 3).empty);
}

#[test]
fn the_wait_shortens_with_the_level() {
    let source = PieceSource::from_names(vec![PieceName::I; 30]).unwrap();
    let mut session = Session::new(GameState::new(8, 6, source).unwrap());
    assert_eq!(session.tick_millis(), 900);
    for _ in 0..10 {
        for _ in 0..3 {
            session.handle(Command::MoveLeft);
        }
        session.handle(Command::HardDrop);
        assert!(session.tick());
        session.handle(Command::MoveRight);
        session.handle(Command::HardDrop);
        assert!(session.tick());
    }
    assert_eq!(session.game().lines(), 10);
    assert_eq!(session.game().level(), 2);
    assert_eq!(session.tick_millis(), 800);
}

#[test]
fn a_key_gives_its_command() {
    let mut session = canonical();
    assert!(!session.on_key(b'j'));
    assert_eq!(
        session.game().active().get_position(),
        vec![(0, 3), (1, 2), (1, 3), (1, 4)]
    );
    assert!(!session.on_key(b'k'));
    assert_eq!(session.game().score(), 1);
    assert!(!session.on_key(b's'));
    assert_eq!(session.game().held(), Some(PieceName::T));
    assert!(session.on_key(b' '));
    assert_eq!(session.game().score(), 1 + 2 * 23);
    assert!(session.is_running());
    assert!(session.on_key(b'q'));
    assert!(!session.is_running());
    assert!(session.on_key(b'j'));
}

#[test]
fn an_unknown_key_ends_the_wait_and_changes_nothing() {
    let mut session = canonical();
    assert!(!session.on_key(b'l'));
    let at = session.game().active().get_position();
    for key in [0u8, 13, 27, 91, b'x', b'J', 255] {
        assert!(session.on_key(key));
        assert_eq!(session.game().active().get_position(), at);
        assert_eq!(session.game().score(), 0);
        assert!(session.is_running());
        assert!(session.can_hold());
    }
}
