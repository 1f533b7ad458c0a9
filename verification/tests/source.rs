use grid::tetris::piece::{PieceName, PIECE_KINDS};
use grid::tetris::source::{PieceSource, LOOKAHEAD};

fn six() -> Vec<PieceName> {
    vec![
        PieceName::T,
        PieceName::I,
        PieceName::O,
        PieceName::S,
        PieceName::Z,
        PieceName::J,
    ]
}

#[test]
fn a_queue_needs_six_names() {
    assert_eq!(LOOKAHEAD, 6);
    assert!(PieceSource::from_names(Vec::new()).is_none());
    assert!(PieceSource::from_names(six()[..5].to_vec()).is_none());
    assert!(PieceSource::from_names(six()).is_some());
    let mut seven = six();
    seven.push(PieceName::L);
    let source = PieceSource::from_names(seven).unwrap();
    assert_eq!(source.preview(), six());
}

#[test]
fn advance_hands_out_the_head_and_appends() {
    let mut source = PieceSource::from_names(six()).unwrap();
    let piece = source.advance(PieceName::L);
    assert_eq!(piece.name, PieceName::T);
    assert_eq!(piece.get_position(), vec![(0, 4), (1, 3), (1, 4), (1, 5)]);
    assert_eq!(
        source.preview(),
        vec![
            PieceName::I,
            PieceName::O,
            PieceName::S,
            PieceName::Z,
            PieceName::J,
            PieceName::L
        ]
    );
    let piece = source.advance(PieceName::L);
    assert_eq!(piece.name, PieceName::I);
    assert_eq!(source.preview()[5], PieceName::L);
    assert_eq!(source.preview()[0], PieceName::O);
}

#[test]
fn next_hands_out_the_pieces_in_order_and_keeps_the_queue_full() {
    let mut source = PieceSource::from_names(six()).unwrap();
    for name in six() {
        let before = source.preview();
        let piece = source.next();
        assert_eq!(piece.name, name);
        let after = source.preview();
        assert_eq!(after.len(), 6);
        assert_eq!(after[..5], before[1..]);
    }
    for _ in 0..100 {
        let before = source.preview();
        let piece = source.next();
        assert_eq!(piece.name, before[0]);
        assert_eq!(source.preview().len(), 6);
    }
}

#[test]
fn a_new_queue_is_full() {
    let source = PieceSource::new();
    assert_eq!(source.preview().len(), 6);
}

#[test]
fn a_drawn_index_names_a_piece() {
    let mut seen = [false; 7];
    for _ in 0..2000 {
        let index = PieceSource::draw_index();
        assert!(index < PIECE_KINDS);
        seen[index] = true;
        let name = PieceSource::draw();
        assert!(name.index() < PIECE_KINDS);
    }
    assert!(seen.iter().all(|&s| s));
}
