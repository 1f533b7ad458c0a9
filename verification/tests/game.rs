use grid::rgb::RGB;
use grid::tetris::field::Field;
use grid::tetris::game::{GameState, Move};
use grid::tetris::piece::PieceName;
use grid::tetris::source::PieceSource;
use grid::tetris::tile::{SQUARE, SQUARE_OUTLINE};

fn game_of(width: usize, height: usize, names: [PieceName; 6]) -> GameState {
    let source = PieceSource::from_names(names.to_vec()).unwrap();
    GameState::new(width, height, source).unwrap()
}

fn canonical(names: [PieceName; 6]) -> GameState {
    game_of(10, 24, names)
}

fn occupied_positions(field: &Field) -> Vec<(usize, usize)> {
    let mut at = Vec::new();
    for row in 0..field.height() {
        for column in 0..field.width() {
            if !field.get(row, column).empty {
                at.push((row, column));
            }
        }
    }
    at
}

fn snapshot(game: &GameState) -> Vec<(bool, RGB, [u8; 4], usize, usize)> {
    let field = game.field();
    let mut tiles = Vec::new();
    for row in 0..field.height() {
        for column in 0..field.width() {
            let t = field.get(row, column);
            tiles.push((t.empty, t.color, t.utf8, t.row, t.column));
        }
    }
    tiles
}

const TIOSZJ: [PieceName; 6] = [
    PieceName::T,
    PieceName::I,
    PieceName::O,
    PieceName::S,
    PieceName::Z,
    PieceName::J,
];

const IIOTSZ: [PieceName; 6] = [
    PieceName::I,
    PieceName::I,
    PieceName::O,
    PieceName::T,
    PieceName::S,
    PieceName::Z,
];

#[test]
fn a_game_begins_with_the_first_piece_and_its_shadow() {
    let game = canonical(TIOSZJ);
    assert!(!game.is_over());
    assert_eq!((game.score(), game.lines(), game.level()), (0, 0, 1));
    assert_eq!(game.held(), None);
    assert_eq!(game.active().name, PieceName::T);
    assert_eq!(game.active().get_position(), vec![(0, 4), (1, 3), (1, 4), (1, 5)]);
    assert_eq!(game.shadow().get_position(), vec![(22, 4), (23, 3), (23, 4), (23, 5)]);
    assert_eq!(
        occupied_positions(game.field()),
        vec![(0, 4), (1, 3), (1, 4), (1, 5), (22, 4), (23, 3), (23, 4), (23, 5)]
    );
    assert_eq!(game.field().get(0, 4).utf8, SQUARE);
    assert_eq!(game.field().get(23, 4).utf8, SQUARE_OUTLINE);
    assert_eq!(game.field().get(23, 4).color, RGB { r: 128, g: 0, b: 128 });
    let upcoming = game.upcoming();
    assert_eq!(upcoming.len(), 6);
    assert_eq!(upcoming[..5], TIOSZJ[1..]);
    assert_eq!((game.field().width(), game.field().height()), (10, 24));
}

#[test]
fn a_game_needs_a_field() {
    let source = PieceSource::from_names(TIOSZJ.to_vec()).unwrap();
    assert!(GameState::new(0, 24, source).is_none());
    let source = PieceSource::from_names(TIOSZJ.to_vec()).unwrap();
    assert!(GameState::new(10, 0, source).is_none());
}

#[test]
fn a_game_on_a_field_without_room_is_over_at_once() {
    let mut game = game_of(10, 1, TIOSZJ);
    assert!(game.is_over());
    assert_eq!(occupied_positions(game.field()), vec![]);
    assert!(!game.move_left());
    assert!(!game.move_down(5));
    assert_eq!(game.hard_drop(), 0);
    assert!(!game.lock());
    game.hold();
    assert_eq!(game.held(), None);
    assert_eq!(game.score(), 0);
    assert!(game_of(4, 24, TIOSZJ).is_over());
    assert!(!game_of(6, 2, TIOSZJ).is_over());
}

#[test]
fn a_piece_moves_until_the_wall() {
    let mut game = canonical(TIOSZJ);
    assert!(game.move_left());
    assert!(game.move_left());
    assert!(game.move_left());
    assert_eq!(game.active().get_position(), vec![(0, 1), (1, 0), (1, 1), (1, 2)]);
    assert_eq!(game.shadow().get_position(), vec![(22, 1), (23, 0), (23, 1), (23, 2)]);
    let before = snapshot(&game);
    assert!(!game.move_left());
    assert_eq!(game.active().get_position(), vec![(0, 1), (1, 0), (1, 1), (1, 2)]);
    assert_eq!(snapshot(&game), before);
    for _ in 0..7 {
        assert!(game.move_right());
    }
    assert_eq!(game.active().get_position(), vec![(0, 8), (1, 7), (1, 8), (1, 9)]);
    assert!(!game.move_right());
    assert!(!game.apply(Move::Right));
    assert_eq!(
        occupied_positions(game.field()),
        vec![(0, 8), (1, 7), (1, 8), (1, 9), (22, 8), (23, 7), (23, 8), (23, 9)]
    );
    assert_eq!(game.score(), 0);
}

#[test]
fn a_move_down_is_rewarded_only_if_it_is_made() {
    let mut game = canonical(TIOSZJ);
    assert!(game.move_down(3));
    assert_eq!(game.score(), 3);
    assert!(game.move_down(0));
    assert_eq!(game.score(), 3);
    assert_eq!(game.active().get_position(), vec![(2, 4), (3, 3), (3, 4), (3, 5)]);
    assert_eq!(game.active().pivot, (6, 8));
    for _ in 0..20 {
        assert!(game.apply(Move::Down(1)));
    }
    assert_eq!(game.score(), 23);
    assert_eq!(game.active().get_position(), vec![(22, 4), (23, 3), (23, 4), (23, 5)]);
    assert!(!game.move_down(100));
    assert_eq!(game.score(), 23);
    assert_eq!(occupied_positions(game.field()), vec![(22, 4), (23, 3), (23, 4), (23, 5)]);
    assert_eq!(game.field().get(23, 4).utf8, SQUARE);
}

#[test]
fn a_piece_turns_where_it_has_room() {
    let mut game = canonical(TIOSZJ);
    assert!(game.rotate_left());
    assert_eq!(game.active().get_position(), vec![(1, 3), (2, 4), (1, 4), (0, 4)]);
    assert_eq!(game.shadow().get_position(), vec![(22, 3), (23, 4), (22, 4), (21, 4)]);
    assert!(game.rotate_right());
    assert_eq!(game.active().get_position(), vec![(0, 4), (1, 3), (1, 4), (1, 5)]);
    assert!(game.rotate_right());
    assert_eq!(game.active().get_position(), vec![(1, 5), (0, 4), (1, 4), (2, 4)]);
    assert!(game.apply(Move::RotateLeft));
    assert!(game.apply(Move::RotateRight));
    assert_eq!(game.score(), 0);
}

#[test]
fn a_turn_without_room_is_discarded() {
    let mut game = canonical(IIOTSZ);
    let before = snapshot(&game);
    assert!(!game.rotate_left());
    assert!(!game.rotate_right());
    assert_eq!(game.active().get_position(), vec![(0, 3), (0, 4), (0, 5), (0, 6)]);
    assert_eq!(snapshot(&game), before);
    assert!(game.move_down(0));
    assert!(game.rotate_left());
    assert_eq!(game.active().get_position(), vec![(3, 4), (2, 4), (1, 4), (0, 4)]);
    for _ in 0..4 {
        assert!(game.move_left());
    }
    assert!(!game.move_left());
    assert!(!game.rotate_left());
    assert_eq!(game.active().get_position(), vec![(3, 0), (2, 0), (1, 0), (0, 0)]);
}

#[test]
fn a_hard_drop_takes_the_piece_to_its_shadow() {
    let mut game = canonical(TIOSZJ);
    assert_eq!(game.hard_drop(), 22);
    assert_eq!(game.score(), 44);
    assert_eq!(game.active().get_position(), vec![(22, 4), (23, 3), (23, 4), (23, 5)]);
    assert_eq!(game.active().pivot, (46, 8));
    assert_eq!(game.shadow().get_position(), game.active().get_position());
    for tile in game.active().tiles.iter() {
        assert_eq!(tile.utf8, SQUARE);
        assert_eq!(tile.color, RGB { r: 128, g: 0, b: 128 });
    }
    assert_eq!(occupied_positions(game.field()), vec![(22, 4), (23, 3), (23, 4), (23, 5)]);
    assert_eq!(game.field().get(23, 3).utf8, SQUARE);
    assert_eq!(game.hard_drop(), 0);
    assert_eq!(game.score(), 44);
    assert!(!game.move_down(1));
}

#[test]
fn locking_brings_the_next_piece() {
    let mut game = canonical(TIOSZJ);
    game.hard_drop();
    assert!(game.lock());
    assert_eq!((game.score(), game.lines(), game.level()), (44, 0, 1));
    assert_eq!(game.active().name, PieceName::I);
    assert_eq!(game.active().get_position(), vec![(0, 3), (0, 4), (0, 5), (0, 6)]);
    assert_eq!(game.shadow().get_position(), vec![(21, 3), (21, 4), (21, 5), (21, 6)]);
    assert_eq!(
        occupied_positions(game.field()),
        vec![
            (0, 3),
            (0, 4),
            (0, 5),
            (0, 6),
            (21, 3),
            (21, 4),
            (21, 5),
            (21, 6),
            (22, 4),
            (23, 3),
            (23, 4),
            (23, 5)
        ]
    );
    let upcoming = game.upcoming();
    assert_eq!(upcoming[..4], TIOSZJ[2..]);
}

#[test]
fn a_piece_can_be_locked_in_mid_air() {
    let mut game = canonical(TIOSZJ);
    assert!(game.move_down(0));
    assert!(game.move_down(0));
    assert!(game.move_down(0));
    assert!(game.lock());
    assert_eq!(game.active().name, PieceName::I);
    assert_eq!(game.shadow().get_position(), vec![(2, 3), (2, 4), (2, 5), (2, 6)]);
    assert_eq!(
        occupied_positions(game.field()),
        vec![(0, 3), (0, 4), (0, 5), (0, 6), (2, 3), (2, 4), (2, 5), (2, 6), (3, 4), (4, 3), (4, 4), (4, 5)]
    );
}

#[test]
fn a_full_row_is_cleared_counted_and_paid() {
    let mut game = canonical(IIOTSZ);
    for _ in 0..3 {
        assert!(game.move_left());
    }
    assert_eq!(game.hard_drop(), 23);
    assert!(game.lock());
    assert_eq!((game.score(), game.lines()), (46, 0));
    assert!(game.move_right());
    assert_eq!(game.hard_drop(), 23);
    assert!(game.lock());
    assert_eq!((game.score(), game.lines()), (92, 0));
    assert_eq!(game.active().name, PieceName::O);
    for _ in 0..4 {
        assert!(game.move_right());
    }
    assert!(!game.move_right());
    assert_eq!(game.hard_drop(), 22);
    assert_eq!(game.score(), 136);
    assert!(game.lock());
    assert_eq!((game.score(), game.lines(), game.level()), (236, 1, 1));
    assert_eq!(game.active().name, PieceName::T);
    assert_eq!(
        occupied_positions(game.field()),
        vec![
            (0, 4),
            (1, 3),
            (1, 4),
            (1, 5),
            (22, 4),
            (23, 3),
            (23, 4),
            (23, 5),
            (23, 8),
            (23, 9)
        ]
    );
    let fallen = game.field().get(23, 8);
    assert_eq!(fallen.color, RGB { r: 255, g: 255, b: 0 });
    assert_eq!((fallen.row, fallen.column), (23, 8));
    assert_eq!(game.field().occupied_count(), 10);
}

#[test]
fn the_game_is_over_when_the_next_piece_has_no_room() {
    let mut game = game_of(10, 2, [
        PieceName::O,
        PieceName::I,
        PieceName::T,
        PieceName::S,
        PieceName::Z,
        PieceName::J,
    ]);
    assert!(!game.is_over());
    assert_eq!(game.hard_drop(), 0);
    assert!(!game.lock());
    assert!(game.is_over());
    assert_eq!(occupied_positions(game.field()), vec![(0, 4), (0, 5), (1, 4), (1, 5)]);
    assert_eq!(game.active().name, PieceName::I);
    let before = snapshot(&game);
    assert!(!game.move_left());
    assert!(!game.rotate_left());
    assert_eq!(game.hard_drop(), 0);
    assert!(!game.lock());
    game.hold();
    assert_eq!(snapshot(&game), before);
    assert_eq!(game.held(), None);
    assert_eq!((game.score(), game.lines(), game.level()), (0, 0, 1));
}

#[test]
fn pieces_pile_up_to_the_top() {
    let mut game = game_of(10, 6, [PieceName::O; 6]);
    let mut locked = 0;
    while !game.is_over() {
        game.hard_drop();
        game.lock();
        locked += 1;
        assert!(locked <= 3);
    }
    assert_eq!(locked, 3);
    assert_eq!(game.lines(), 0);
    assert_eq!(game.score(), 2 * 4 + 2 * 2);
    assert_eq!(occupied_positions(game.field()).len(), 12);
}

#[test]
fn holding_swaps_the_piece_in_play() {
    let mut game = canonical(TIOSZJ);
    assert!(game.move_down(0));
    assert!(game.move_left());
    game.hold();
    assert_eq!(game.held(), Some(PieceName::T));
    assert_eq!(game.active().name, PieceName::I);
    assert_eq!(game.active().get_position(), vec![(0, 3), (0, 4), (0, 5), (0, 6)]);
    assert_eq!(game.shadow().get_position(), vec![(23, 3), (23, 4), (23, 5), (23, 6)]);
    assert_eq!(
        occupied_positions(game.field()),
        vec![(0, 3), (0, 4), (0, 5), (0, 6), (23, 3), (23, 4), (23, 5), (23, 6)]
    );
    assert_eq!(game.upcoming()[..4], TIOSZJ[2..]);
    game.hold();
    assert_eq!(game.held(), Some(PieceName::I));
    assert_eq!(game.active().name, PieceName::T);
    assert_eq!(game.active().get_position(), vec![(0, 4), (1, 3), (1, 4), (1, 5)]);
    assert_eq!(game.active().pivot, (2, 8));
    assert_eq!(game.upcoming()[..4], TIOSZJ[2..]);
    assert_eq!(game.score(), 0);
}

#[test]
fn the_held_piece_has_a_picture() {
    let mut game = canonical(TIOSZJ);
    assert_eq!(game.held_text(), "        \n\n\n");
    game.hold();
    assert_eq!(game.held_text(), "  ■     \n■ ■ ■   \n\n");
    game.hold();
    assert_eq!(game.held_text(), "■ ■ ■ ■ \n        \n\n");
}

#[test]
fn the_level_follows_the_lines() {
    let source = PieceSource::from_names(vec![PieceName::I; 30]).unwrap();
    let mut game = GameState::new(8, 6, source).unwrap();
    let mut expected = 0;
    for line in 1..=12 {
        let before = game.level();
        assert_eq!(before, (line - 1) / 10 + 1);
        for _ in 0..3 {
            assert!(game.move_left());
        }
        assert_eq!(game.hard_drop(), 5);
        assert!(game.lock());
        assert_eq!(game.lines(), line - 1);
        assert!(game.move_right());
        assert_eq!(game.hard_drop(), 5);
        assert!(game.lock());
        assert_eq!(game.lines(), line);
        assert_eq!(game.level(), line / 10 + 1);
        expected += 2 * 5 * before * 2 + 100 * (line / 10 + 1);
        assert_eq!(game.score(), expected);
        assert_eq!(game.field().occupied_count(), 8);
    }
    assert_eq!(expected, 1780);
    assert_eq!((game.lines(), game.level()), (12, 2));
}

#[test]
fn a_right_turned_i_reaches_the_left_wall() {
    let mut game = canonical(IIOTSZ);
    assert!(game.move_down(0));
    assert!(game.rotate_right());
    assert_eq!(game.active().get_position(), vec![(0, 5), (1, 5), (2, 5), (3, 5)]);
    assert_eq!(game.active().pivot, (3, 9));
    for column in (0..5).rev() {
        assert!(game.move_left());
        assert_eq!(game.active().get_position()[0], (0, column));
    }
    assert_eq!(game.active().get_position(), vec![(0, 0), (1, 0), (2, 0), (3, 0)]);
    assert_eq!(game.active().pivot, (3, -1));
    assert_eq!(game.shadow().get_position(), vec![(20, 0), (21, 0), (22, 0), (23, 0)]);
    assert_eq!(
        occupied_positions(game.field()),
        vec![(0, 0), (1, 0), (2, 0), (3, 0), (20, 0), (21, 0), (22, 0), (23, 0)]
    );
    let before = snapshot(&game);
    assert!(!game.move_left());
    assert_eq!(snapshot(&game), before);
    assert_eq!(game.hard_drop(), 20);
    assert_eq!(game.active().pivot, (43, -1));
    assert!(game.lock());
    assert!(!game.field().get(23, 0).empty);
}

#[test]
fn a_left_turned_i_reaches_the_right_wall() {
    let mut game = canonical(IIOTSZ);
    assert!(game.move_down(0));
    assert!(game.rotate_left());
    assert_eq!(game.active().get_position(), vec![(3, 4), (2, 4), (1, 4), (0, 4)]);
    for column in 5..10 {
        assert!(game.move_right());
        assert_eq!(game.active().get_position()[0], (3, column));
    }
    assert_eq!(game.active().pivot, (3, 19));
    assert!(!game.move_right());
    assert_eq!(game.active().get_position(), vec![(3, 9), (2, 9), (1, 9), (0, 9)]);
}

#[test]
fn a_move_is_made_wherever_there_is_room() {
    for name in [
        PieceName::I,
        PieceName::O,
        PieceName::T,
        PieceName::S,
        PieceName::Z,
        PieceName::J,
        PieceName::L,
    ] {
        for turns in 0..4 {
            let mut game = canonical([name; 6]);
            for _ in 0..4 {
                assert!(game.move_down(0));
            }
            for _ in 0..turns {
                assert!(game.rotate_right());
            }
            loop {
                let leftmost = game.active().get_position().iter().map(|at| at.1).min().unwrap();
                assert_eq!(game.move_left(), leftmost > 0);
                if leftmost == 0 {
                    break;
                }
            }
            loop {
                let rightmost = game.active().get_position().iter().map(|at| at.1).max().unwrap();
                assert_eq!(game.move_right(), rightmost < 9);
                if rightmost == 9 {
                    break;
                }
            }
            loop {
                let lowest = game.active().get_position().iter().map(|at| at.0).max().unwrap();
                assert_eq!(game.move_down(0), lowest < 23);
                if lowest == 23 {
                    break;
                }
            }
        }
    }
}
