//! The state of a game and the moves that change it.

use vstd::prelude::*;
use crate::tetris::clearing::{lemma_at_most_four_full, lemma_clearing_leaves_no_full_row};
use crate::tetris::field::Field;
use crate::tetris::piece::{Piece, PieceName};
use crate::tetris::scoring::{
    capped, drop_award, level_for, level_of, line_award, score_after_clear, score_after_drop,
};
use crate::tetris::source::{PieceSource, LOOKAHEAD};
use crate::tetris::surface::{
    blank_surface, compacted, drop_distance, full_rows_of, landing, lemma_blank_surface,
    lemma_fall_ends_at_shadow, lemma_landing_fits, lemma_lift_restores, lemma_room_is_all,
    lemma_shadow_below, lemma_shifted_nowhere, lemma_with_piece,
    lemma_without_piece, no_full_row, piece_fits, piece_inside, rectangular, rests, room_at,
    settled, settled_at, with_piece, without_piece,
};
use crate::tetris::tile::Tile;

verus! {

/// A move of the piece in play.
#[derive(Copy, Clone, Debug)]
pub enum Move {
    /// One column to the left.
    Left,
    /// One column to the right.
    Right,
    /// One row down; the number is added to the score if the piece moves.
    Down(usize),
    /// A quarter turn to the left.
    RotateLeft,
    /// A quarter turn to the right.
    RotateRight,
}

/// What a game is, apart from how it is stored.
pub struct GameView {
    /// The field, with the piece in play and its shadow laid on it.
    pub surface: Seq<Seq<Tile>>,
    /// The piece in play.
    pub active: Piece,
    /// Where the piece in play would come to rest, as outlines.
    pub shadow: Piece,
    /// The names of the coming pieces, the next one first.
    pub upcoming: Seq<PieceName>,
    /// The name of the piece that was set aside, if one was.
    pub held: Option<PieceName>,
    pub score: usize,
    /// How many lines were cleared so far.
    pub lines: usize,
    pub level: usize,
    /// Whether the game has ended.
    pub over: bool,
}

impl GameView {
    /// The field without the piece in play and its shadow: what has come to
    /// rest.
    pub open spec fn base(self) -> Seq<Seq<Tile>> {
        without_piece(without_piece(self.surface, self.shadow), self.active)
    }

    /// What holds of a game between any two moves. The level goes with the
    /// lines. While the game is on, the piece in play lies where nothing has
    /// come to rest, the shadow is where it would land, the field shows what
    /// has come to rest with the shadow on it and the piece on top, and
    /// nothing that has come to rest makes a full row.
    pub open spec fn inv(self) -> bool {
        &&& self.upcoming.len() >= LOOKAHEAD
        &&& self.level == level_for(self.lines as nat)
        &&& !self.over ==> {
            &&& piece_fits(self.base(), self.active)
            &&& self.shadow == landing(self.base(), self.active)
            &&& self.surface == with_piece(with_piece(self.base(), self.shadow), self.active)
            &&& no_full_row(self.base())
        }
    }

    /// The game once `p` is the piece in play on what has come to rest, `g`.
    pub open spec fn entered(self, g: Seq<Seq<Tile>>, p: Piece) -> GameView {
        GameView {
            surface: with_piece(with_piece(g, landing(g, p)), p),
            active: p,
            shadow: landing(g, p),
            ..self
        }
    }

    /// The game once `p` was to enter on `g`: it is in play if it has room,
    /// and the game is over if it has not.
    pub open spec fn spawned(self, g: Seq<Seq<Tile>>, p: Piece) -> GameView {
        if piece_fits(g, p) {
            self.entered(g, p)
        } else {
            GameView { surface: g, active: p, shadow: p.outlined(), over: true, ..self }
        }
    }

    /// A game that begins on a blank field with `first` as its first piece.
    pub open spec fn opening(
        height: nat,
        width: nat,
        upcoming: Seq<PieceName>,
        first: Piece,
    ) -> GameView {
        let blank = blank_surface(height, width);
        GameView {
            surface: blank,
            active: first,
            shadow: first,
            upcoming,
            held: None,
            score: 0,
            lines: 0,
            level: 1,
            over: false,
        }.spawned(blank, first)
    }

    /// `after` differs from this game in nothing but the piece in play, its
    /// shadow, how the field shows the two, and the score.
    pub open spec fn only_piece_moved(self, after: GameView) -> bool {
        &&& after.base() == self.base()
        &&& after.upcoming == self.upcoming
        &&& after.held == self.held
        &&& after.lines == self.lines
        &&& after.level == self.level
        &&& after.over == self.over
    }

    /// The piece that comes when the piece in play is set aside: the one
    /// that was set aside before, or else the next of the queue.
    pub open spec fn comes_for_held(self) -> Piece {
        match self.held {
            Some(name) => Piece::spawn(name),
            None => Piece::spawn(self.upcoming[0]),
        }
    }

    /// Where the move would take the piece in play, if its coordinates allow
    /// it.
    pub open spec fn candidate(self, m: Move) -> Option<Piece> {
        match m {
            Move::Left => if self.active.can_shift(0, -1) {
                Some(self.active.shifted(0, -1))
            } else {
                None
            },
            Move::Right => if self.active.can_shift(0, 1) {
                Some(self.active.shifted(0, 1))
            } else {
                None
            },
            Move::Down(_) => if self.active.can_shift(1, 0) {
                Some(self.active.shifted(1, 0))
            } else {
                None
            },
            Move::RotateLeft => if self.active.can_turn(true) {
                Some(self.active.turned(true))
            } else {
                None
            },
            Move::RotateRight => if self.active.can_turn(false) {
                Some(self.active.turned(false))
            } else {
                None
            },
        }
    }

    /// Whether the move can be made: the game is on, and where the move takes
    /// the piece, every position lies in the field and nothing has come to
    /// rest on it.
    pub open spec fn can_move(self, m: Move) -> bool {
        &&& !self.over
        &&& self.candidate(m) matches Some(to)
        &&& piece_fits(self.base(), to)
    }

    /// The game after the move: unchanged if the move cannot be made. Else
    /// the piece is where the move takes it, the shadow below it, and a move
    /// down has added its reward to the score.
    #[verifier::opaque]
    pub open spec fn after_move(self, m: Move) -> GameView {
        if self.can_move(m) {
            let moved = self.entered(self.base(), self.candidate(m)->0);
            match m {
                Move::Down(reward) => GameView { score: capped(self.score + reward), ..moved },
                _ => moved,
            }
        } else {
            self
        }
    }

    /// The game after a hard drop: the piece lies where its shadow was, and
    /// the score has grown by twice the level for every row that it fell.
    #[verifier::opaque]
    pub open spec fn after_hard_drop(self) -> GameView {
        if self.over {
            self
        } else {
            let fall = drop_distance(self.base(), self.active);
            let dropped = self.entered(self.base(), self.active.shifted(fall as int, 0));
            GameView {
                score: capped(self.score + drop_award(fall, self.level as nat)),
                ..dropped
            }
        }
    }

    /// The game after the piece in play was set aside. The piece that was set
    /// aside before comes back as it first entered; if there was none, the
    /// next piece comes from the queue, which `fresh` fills up. The piece
    /// that comes must have room, or the game is over.
    #[verifier::opaque]
    pub open spec fn after_hold(self, fresh: PieceName) -> GameView {
        if self.over {
            self
        } else {
            match self.held {
                Some(name) => GameView { held: Some(self.active.name), ..self }.spawned(
                    self.base(),
                    Piece::spawn(name),
                ),
                None => GameView {
                    held: Some(self.active.name),
                    upcoming: self.upcoming.skip(1).push(fresh),
                    ..self
                }.spawned(self.base(), Piece::spawn(self.upcoming[0])),
            }
        }
    }

    /// What has come to rest once the piece in play is locked where it lies.
    pub open spec fn locked(self) -> Seq<Seq<Tile>> {
        with_piece(self.base(), self.active)
    }

    /// The game after the piece in play was locked. Its tiles have come to
    /// rest. The rows that this has filled are cleared and counted, the level
    /// follows the count, and the score grows by what the rows are worth at
    /// the new level. Then the next piece comes from the queue, which `fresh`
    /// fills up; it must have room, or the game is over.
    #[verifier::opaque]
    pub open spec fn after_lock(self, fresh: PieceName) -> GameView {
        if self.over {
            self
        } else {
            let rows = full_rows_of(self.locked());
            let lines = capped(self.lines + rows.len());
            let level = level_for(lines as nat) as usize;
            GameView {
                lines,
                level,
                score: capped(self.score + line_award(rows.len()) * level),
                upcoming: self.upcoming.skip(1).push(fresh),
                ..self
            }.spawned(compacted(self.locked(), rows), Piece::spawn(self.upcoming[0]))
        }
    }
}

/// The piece in play and its shadow can be lifted from the field of a game
/// that is on.
#[verifier::rlimit(40)]
proof fn lemma_can_lift(v: GameView, height: nat, width: nat)
    requires
        v.inv(),
        !v.over,
        rectangular(v.surface, height, width),
        settled(v.surface),
    ensures
        piece_inside(v.surface, v.shadow),
        piece_inside(without_piece(v.surface, v.shadow), v.active),
        rectangular(v.base(), height, width),
        settled(v.base()),
        piece_fits(v.base(), v.shadow),
{
    let g = v.base();
    let lower = without_piece(v.surface, v.shadow);
    assert(piece_fits(g, v.shadow)) by {
        lemma_landing_fits(g, v.active);
    }
    assert(rectangular(g, height, width)) by {
        lemma_with_piece(g, v.shadow);
        lemma_with_piece(with_piece(g, v.shadow), v.active);
    }
    assert(piece_inside(v.surface, v.shadow));
    assert(rectangular(lower, height, width) && settled(lower)) by {
        lemma_without_piece(v.surface, v.shadow);
        assert forall|r: int, c: int|
            0 <= r < lower.len() && 0 <= c < lower[r].len() implies settled_at(
            #[trigger] lower[r][c],
            r,
            c,
        ) by {
            assert(settled_at(v.surface[r][c], r, c));
        }
    }
    assert(piece_inside(lower, v.active));
    assert(settled(g)) by {
        lemma_without_piece(lower, v.active);
        assert forall|r: int, c: int| 0 <= r < g.len() && 0 <= c < g[r].len() implies settled_at(
            #[trigger] g[r][c],
            r,
            c,
        ) by {
            assert(settled_at(lower[r][c], r, c));
        }
    }
}

/// A move to the left, to the right or down is made if and only if the game
/// is on and there is room for the piece one place further: every tile
/// comes to lie in the field, on a position on which nothing has come to
/// rest.
#[verifier::rlimit(40)]
pub proof fn lemma_move_needs_room(v: GameView, height: nat, width: nat, reward: usize)
    requires
        v.inv(),
        rectangular(v.surface, height, width),
        settled(v.surface),
        height <= usize::MAX,
        width <= usize::MAX,
    ensures
        v.can_move(Move::Left) <==> !v.over && room_at(v.base(), v.active, 0, -1),
        v.can_move(Move::Right) <==> !v.over && room_at(v.base(), v.active, 0, 1),
        v.can_move(Move::Down(reward)) <==> !v.over && room_at(v.base(), v.active, 1, 0),
{
    if !v.over {
        assert(rectangular(v.base(), height, width)) by {
            lemma_can_lift(v, height, width);
        }
        lemma_room_is_all(v.base(), height, width, v.active, 0, -1);
        lemma_room_is_all(v.base(), height, width, v.active, 0, 1);
        lemma_room_is_all(v.base(), height, width, v.active, 1, 0);
    }
}

/// While a game is on, the piece in play can move down if and only if it
/// does not lie where its shadow lies, and a move down leaves the shadow
/// where it was.
#[verifier::rlimit(40)]
pub proof fn lemma_shadow_ends_fall(v: GameView, reward: usize)
    requires
        v.inv(),
        !v.over,
    ensures
        v.can_move(Move::Down(reward)) <==> drop_distance(v.base(), v.active) >= 1,
        v.can_move(Move::Down(reward)) <==> !v.active.spec_same_position(v.shadow),
        v.can_move(Move::Down(reward)) ==> v.after_move(Move::Down(reward)).shadow == v.shadow,
{
    reveal(GameView::after_move);
    let g = v.base();
    let far = drop_distance(g, v.active);
    assert(v.can_move(Move::Down(reward)) <==> rests(g, v.active, 1));
    assert(rests(g, v.active, 1) <==> far >= 1) by {
        lemma_fall_ends_at_shadow(g, v.active);
    }
    assert(far >= 1 <==> !v.active.spec_same_position(v.shadow)) by {
        lemma_shadow_below(g, v.active);
        if far == 0 {
            lemma_shifted_nowhere(v.active);
            assert(v.active.tiles[0].row == v.shadow.tiles[0].row);
        } else {
            assert(v.active.tiles[0].row != v.shadow.tiles[0].row);
        }
    }
    if v.can_move(Move::Down(reward)) {
        assert(landing(g, v.active.shifted(1, 0)) == landing(g, v.active)) by {
            lemma_fall_ends_at_shadow(g, v.active);
        }
    }
}

/// A hard drop takes the piece in play to where its shadow lay and leaves
/// the shadow there. What has come to rest stays as it is, and the piece
/// cannot move down any more.
#[verifier::rlimit(40)]
pub proof fn lemma_hard_drop_lands(v: GameView, height: nat, width: nat, reward: usize)
    requires
        v.inv(),
        !v.over,
        rectangular(v.surface, height, width),
        settled(v.surface),
    ensures
        v.after_hard_drop().active.outlined() == v.shadow,
        v.after_hard_drop().shadow == v.shadow,
        v.after_hard_drop().base() == v.base(),
        !v.after_hard_drop().can_move(Move::Down(reward)),
{
    reveal(GameView::after_hard_drop);
    let g = v.base();
    let far = drop_distance(g, v.active);
    let landed = v.active.shifted(far as int, 0);
    let dropped = v.after_hard_drop();
    assert(dropped.active == landed && dropped.shadow == landing(g, landed) && !dropped.over);
    assert(landing(g, landed) == v.shadow && !rests(g, landed, 1) && piece_fits(g, landed)) by {
        lemma_fall_ends_at_shadow(g, v.active);
        lemma_shadow_below(g, v.active);
    }
    assert(settled(g)) by {
        lemma_can_lift(v, height, width);
    }
    assert(dropped.base() == g) by {
        lemma_landing_fits(g, landed);
        lemma_lift_restores(g, v.shadow, landed);
    }
    assert(!dropped.can_move(Move::Down(reward)));
}

/// Once a piece has entered, what has come to rest is what it entered on:
/// the piece and its shadow lie on top of it and cover nothing.
pub proof fn lemma_entered_on(v: GameView, g: Seq<Seq<Tile>>, p: Piece)
    requires
        settled(g),
        piece_fits(g, p),
    ensures
        v.entered(g, p).base() == g,
        v.spawned(g, p).base() == g,
        !v.over ==> !v.spawned(g, p).over,
{
    lemma_landing_fits(g, p);
    lemma_lift_restores(g, landing(g, p), p);
}

/// What a lock does to the count. The rows that the locked piece has filled
/// are added to the lines, the level is one more than the full tens of the
/// lines, and the score grows by what the rows are worth at that level: 100,
/// 300, 500 or 1000 times the level for one, two, three or four rows. A lock
/// that fills no row leaves the count as it is.
#[verifier::rlimit(40)]
pub proof fn lemma_lock_counts(v: GameView, fresh: PieceName)
    requires
        v.inv(),
        !v.over,
    ensures
        ({
            let cleared = full_rows_of(v.locked()).len();
            let after = v.after_lock(fresh);
            &&& after.lines == capped(v.lines + cleared)
            &&& after.level == level_for(after.lines as nat)
            &&& after.score == capped(v.score + line_award(cleared) * after.level)
            &&& cleared == 0 ==> after.lines == v.lines && after.level == v.level && after.score
                == v.score
        }),
{
    reveal(GameView::after_lock);
    let cleared = full_rows_of(v.locked()).len();
    let level = level_for(capped(v.lines + cleared) as nat);
    if cleared == 0 {
        assert(line_award(0) * level == 0) by (nonlinear_arith)
            requires
                line_award(0) == 0,
        ;
    }
}

/// What a hard drop does to the count: the score grows by twice the level for
/// every row that the piece falls, and lines and level stay.
#[verifier::rlimit(40)]
pub proof fn lemma_hard_drop_counts(v: GameView)
    requires
        !v.over,
    ensures
        ({
            let fall = drop_distance(v.base(), v.active);
            let after = v.after_hard_drop();
            &&& after.score == capped(v.score + 2 * fall * v.level)
            &&& after.lines == v.lines
            &&& after.level == v.level
        }),
{
    reveal(GameView::after_hard_drop);
    let fall = drop_distance(v.base(), v.active);
    assert(fall * v.level * 2 == 2 * fall * v.level) by (nonlinear_arith);
}

/// Lays `piece` and, below it, its shadow on a field on which the piece has
/// room. Gives the shadow.
#[verifier::rlimit(40)]
fn lay(field: &mut Field, piece: &Piece) -> (shadow: Piece)
    requires
        old(field).wf(),
        piece_fits(old(field)@, *piece),
    ensures
        final(field).wf(),
        final(field).spec_height() == old(field).spec_height(),
        final(field).spec_width() == old(field).spec_width(),
        shadow == landing(old(field)@, *piece),
        final(field)@ == with_piece(with_piece(old(field)@, shadow), *piece),
        without_piece(without_piece(final(field)@, shadow), *piece) == old(field)@,
{
    let shadow = field.landing(piece);
    proof {
        lemma_landing_fits(field@, *piece);
        lemma_lift_restores(field@, shadow, *piece);
    }
    field.add(&shadow);
    field.add(piece);
    shadow
}

/// A game: the field, the piece in play and its shadow, the pieces to come,
/// the piece set aside, and the count of score, lines and level.
pub struct GameState {
    field: Field,
    active: Piece,
    shadow: Piece,
    source: PieceSource,
    held: Option<PieceName>,
    score: usize,
    lines: usize,
    level: usize,
    over: bool,
}

impl View for GameState {
    type V = GameView;

    closed spec fn view(&self) -> GameView {
        GameView {
            surface: self.field@,
            active: self.active,
            shadow: self.shadow,
            upcoming: self.source@,
            held: self.held,
            score: self.score,
            lines: self.lines,
            level: self.level,
            over: self.over,
        }
    }
}

impl GameState {
    /// The number of rows of the field.
    pub closed spec fn spec_height(&self) -> usize {
        self.field.spec_height()
    }

    /// The number of tiles in a row of the field.
    pub closed spec fn spec_width(&self) -> usize {
        self.field.spec_width()
    }

    /// The field is a well-formed field of the game's size, the queue is as
    /// long as it must be, and `GameView::inv` holds.
    pub closed spec fn wf(&self) -> bool {
        &&& self.field.wf()
        &&& self.source.wf()
        &&& self@.inv()
    }

    /// What a well-formed game is known to be.
    pub proof fn lemma_wf(&self)
        requires
            self.wf(),
        ensures
            self@.inv(),
            1 <= self.spec_height(),
            1 <= self.spec_width(),
            rectangular(self@.surface, self.spec_height() as nat, self.spec_width() as nat),
            settled(self@.surface),
    {
    }

    /// Lets `piece` enter on a field that holds only what has come to rest.
    #[verifier::rlimit(40)]
    fn spawn(&mut self, piece: Piece)
        requires
            old(self).field.wf(),
            old(self).source.wf(),
            old(self).level == level_for(old(self).lines as nat),
            no_full_row(old(self).field@),
            !old(self).over,
        ensures
            final(self).wf(),
            final(self).spec_height() == old(self).field.spec_height(),
            final(self).spec_width() == old(self).field.spec_width(),
            final(self)@ == old(self)@.spawned(old(self).field@, piece),
            !final(self)@.over ==> final(self)@.base() == old(self).field@,
    {
        if self.field.fits(&piece) {
            let shadow = lay(&mut self.field, &piece);
            self.active = piece;
            self.shadow = shadow;
        } else {
            self.active = piece;
            self.shadow = piece.as_outline();
            self.over = true;
        }
    }

    /// A game on a blank field of `width` by `height` tiles, with the first
    /// piece of `source` in play, if a field can have that size. If the
    /// field is so small that the first piece has no room, the game is over
    /// as it begins.
    pub fn new(width: usize, height: usize, source: PieceSource) -> (made: Option<GameState>)
        requires
            source.wf(),
        ensures
            made is Some <==> 1 <= width && 1 <= height && width * height
                <= crate::tetris::field::MAX_TILES,
            made matches Some(game) ==> ({
                &&& game.wf()
                &&& game.spec_width() == width
                &&& game.spec_height() == height
                &&& game@ == GameView::opening(
                    height as nat,
                    width as nat,
                    source@.skip(1).push(game@.upcoming.last()),
                    Piece::spawn(source@[0]),
                )
            }),
    {
        let field = match Field::new(width, height) {
            Some(field) => field,
            None => {
                return None;
            },
        };
        let mut source = source;
        let first = source.next();
        proof {
            lemma_blank_surface(height as nat, width as nat);
        }
        let mut game = GameState {
            field,
            active: first,
            shadow: first,
            source,
            held: None,
            score: 0,
            lines: 0,
            level: 1,
            over: false,
        };
        game.spawn(first);
        Some(game)
    }

    /// Takes the piece in play to where `to` lies, if nothing has come to
    /// rest there, and says whether it did.
    #[verifier::rlimit(40)]
    fn relocate(&mut self, to: Piece) -> (moved: bool)
        requires
            old(self).wf(),
            !old(self).over,
        ensures
            final(self).wf(),
            final(self).spec_height() == old(self).spec_height(),
            final(self).spec_width() == old(self).spec_width(),
            moved == piece_fits(old(self)@.base(), to),
            old(self)@.only_piece_moved(final(self)@),
            final(self)@.score == old(self)@.score,
            final(self)@ == (if moved {
                old(self)@.entered(old(self)@.base(), to)
            } else {
                old(self)@
            }),
    {
        let shadow = self.shadow;
        let active = self.active;
        proof {
            lemma_can_lift(self@, self.field.spec_height() as nat, self.field.spec_width() as nat);
        }
        self.field.remove(&shadow);
        self.field.remove(&active);
        let moved = self.field.fits(&to);
        let next = if moved {
            to
        } else {
            active
        };
        let below = lay(&mut self.field, &next);
        self.active = next;
        self.shadow = below;
        moved
    }

    /// Makes the move if it can be made, and says whether it was made. A move
    /// that cannot be made leaves the game as it is.
    #[verifier::rlimit(40)]
    pub fn apply(&mut self, m: Move) -> (moved: bool)
        requires
            old(self).wf(),
        ensures
            final(self).wf(),
            final(self).spec_height() == old(self).spec_height(),
            final(self).spec_width() == old(self).spec_width(),
            moved == old(self)@.can_move(m),
            final(self)@ == old(self)@.after_move(m),
            old(self)@.only_piece_moved(final(self)@),
            moved ==> final(self)@.active == old(self)@.candidate(m)->0,
            moved ==> final(self)@.score == (match m {
                Move::Down(reward) => capped(old(self)@.score + reward),
                _ => old(self)@.score,
            }),
            !moved ==> final(self)@ == old(self)@,
    {
        proof {
            reveal(GameView::after_move);
        }
        if self.over {
            return false;
        }
        let candidate = match m {
            Move::Left => self.active.moved_left(),
            Move::Right => self.active.moved_right(),
            Move::Down(_) => self.active.moved_down(),
            Move::RotateLeft => self.active.rotated_left(),
            Move::RotateRight => self.active.rotated_right(),
        };
        let to = match candidate {
            Some(to) => to,
            None => {
                return false;
            },
        };
        let moved = self.relocate(to);
        if moved {
            match m {
                Move::Down(reward) => {
                    self.score = self.score.saturating_add(reward);
                },
                _ => {},
            }
        }
        moved
    }

    /// Moves the piece in play one column to the left, if it can.
    #[verifier::rlimit(40)]
    pub fn move_left(&mut self) -> (moved: bool)
        requires
            old(self).wf(),
        ensures
            final(self).wf(),
            final(self).spec_height() == old(self).spec_height(),
            final(self).spec_width() == old(self).spec_width(),
            moved == old(self)@.can_move(Move::Left),
            moved == (!old(self)@.over && room_at(old(self)@.base(), old(self)@.active, 0, -1)),
            final(self)@ == old(self)@.after_move(Move::Left),
            old(self)@.only_piece_moved(final(self)@),
            moved ==> final(self)@.active == old(self)@.candidate(Move::Left)->0,
            final(self)@.score == old(self)@.score,
            !moved ==> final(self)@ == old(self)@,
    {
        proof {
            lemma_move_needs_room(
                self@,
                self.field.spec_height() as nat,
                self.field.spec_width() as nat,
                0,
            );
        }
        self.apply(Move::Left)
    }

    /// Moves the piece in play one column to the right, if it can.
    #[verifier::rlimit(40)]
    pub fn move_right(&mut self) -> (moved: bool)
        requires
            old(self).wf(),
        ensures
            final(self).wf(),
            final(self).spec_height() == old(self).spec_height(),
            final(self).spec_width() == old(self).spec_width(),
            moved == old(self)@.can_move(Move::Right),
            moved == (!old(self)@.over && room_at(old(self)@.base(), old(self)@.active, 0, 1)),
            final(self)@ == old(self)@.after_move(Move::Right),
            old(self)@.only_piece_moved(final(self)@),
            moved ==> final(self)@.active == old(self)@.candidate(Move::Right)->0,
            final(self)@.score == old(self)@.score,
            !moved ==> final(self)@ == old(self)@,
    {
        proof {
            lemma_move_needs_room(
                self@,
                self.field.spec_height() as nat,
                self.field.spec_width() as nat,
                0,
            );
        }
        self.apply(Move::Right)
    }

    /// Moves the piece in play one row down, if it can, and then adds
    /// `score` to the score.
    #[verifier::rlimit(40)]
    pub fn move_down(&mut self, score: usize) -> (moved: bool)
        requires
            old(self).wf(),
        ensures
            final(self).wf(),
            final(self).spec_height() == old(self).spec_height(),
            final(self).spec_width() == old(self).spec_width(),
            moved == old(self)@.can_move(Move::Down(score)),
            moved == (!old(self)@.over && room_at(old(self)@.base(), old(self)@.active, 1, 0)),
            final(self)@ == old(self)@.after_move(Move::Down(score)),
            old(self)@.only_piece_moved(final(self)@),
            moved ==> final(self)@.active == old(self)@.candidate(Move::Down(score))->0,
            moved ==> final(self)@.score == capped(old(self)@.score + score),
            !moved ==> final(self)@ == old(self)@,
    {
        proof {
            lemma_move_needs_room(
                self@,
                self.field.spec_height() as nat,
                self.field.spec_width() as nat,
                score,
            );
        }
        self.apply(Move::Down(score))
    }

    /// Turns the piece in play a quarter to the left, if it can.
    #[verifier::rlimit(40)]
    pub fn rotate_left(&mut self) -> (moved: bool)
        requires
            old(self).wf(),
        ensures
            final(self).wf(),
            final(self).spec_height() == old(self).spec_height(),
            final(self).spec_width() == old(self).spec_width(),
            moved == old(self)@.can_move(Move::RotateLeft),
            final(self)@ == old(self)@.after_move(Move::RotateLeft),
            old(self)@.only_piece_moved(final(self)@),
            moved ==> final(self)@.active == old(self)@.candidate(Move::RotateLeft)->0,
            final(self)@.score == old(self)@.score,
            !moved ==> final(self)@ == old(self)@,
    {
        self.apply(Move::RotateLeft)
    }

    /// Turns the piece in play a quarter to the right, if it can.
    #[verifier::rlimit(40)]
    pub fn rotate_right(&mut self) -> (moved: bool)
        requires
            old(self).wf(),
        ensures
            final(self).wf(),
            final(self).spec_height() == old(self).spec_height(),
            final(self).spec_width() == old(self).spec_width(),
            moved == old(self)@.can_move(Move::RotateRight),
            final(self)@ == old(self)@.after_move(Move::RotateRight),
            old(self)@.only_piece_moved(final(self)@),
            moved ==> final(self)@.active == old(self)@.candidate(Move::RotateRight)->0,
            final(self)@.score == old(self)@.score,
            !moved ==> final(self)@ == old(self)@,
    {
        self.apply(Move::RotateRight)
    }

    /// Drops the piece in play to where its shadow lies, and gives the number
    /// of rows that it fell. The score grows by twice the level for each of
    /// them.
    #[verifier::rlimit(100)]
    pub fn hard_drop(&mut self) -> (fall: usize)
        requires
            old(self).wf(),
        ensures
            final(self).wf(),
            final(self).spec_height() == old(self).spec_height(),
            final(self).spec_width() == old(self).spec_width(),
            final(self)@ == old(self)@.after_hard_drop(),
            old(self)@.only_piece_moved(final(self)@),
            !old(self)@.over ==> final(self)@.active == old(self)@.active.shifted(fall as int, 0),
            final(self)@.score == capped(old(self)@.score + 2 * fall * old(self)@.level),
            !old(self)@.over ==> fall == drop_distance(old(self)@.base(), old(self)@.active),
            old(self)@.over ==> fall == 0,
    {
        proof {
            reveal(GameView::after_hard_drop);
        }
        if self.over {
            assert(2 * 0 * self@.level == 0);
            return 0;
        }
        proof {
            lemma_shadow_below(self@.base(), self.active);
        }
        let fall = self.shadow.tiles[0].row - self.active.tiles[0].row;
        assert(fall * self@.level * 2 == 2 * fall * self@.level) by (nonlinear_arith);
        let to = match self.active.shift(fall, 0, false) {
            Some(to) => to,
            None => self.active,
        };
        self.relocate(to);
        self.score = score_after_drop(self.score, fall, self.level);
        fall
    }

    /// Sets the piece in play aside and brings in the piece that was set
    /// aside before, or the next piece of the queue if there was none. The
    /// game is over if the piece that comes has no room.
    #[verifier::rlimit(40)]
    pub fn hold(&mut self)
        requires
            old(self).wf(),
        ensures
            final(self).wf(),
            final(self).spec_height() == old(self).spec_height(),
            final(self).spec_width() == old(self).spec_width(),
            final(self)@ == old(self)@.after_hold(final(self)@.upcoming.last()),
            old(self)@.over ==> final(self)@ == old(self)@,
            !old(self)@.over ==> ({
                &&& final(self)@.held == Some(old(self)@.active.name)
                &&& final(self)@.active == old(self)@.comes_for_held()
                &&& final(self)@.over == !piece_fits(old(self)@.base(), old(self)@.comes_for_held())
                &&& !final(self)@.over ==> final(self)@.base() == old(self)@.base()
                &&& final(self)@.score == old(self)@.score
                &&& final(self)@.lines == old(self)@.lines
                &&& final(self)@.level == old(self)@.level
                &&& old(self)@.held is Some ==> final(self)@.upcoming == old(self)@.upcoming
                &&& old(self)@.held is None ==> final(self)@.upcoming.drop_last()
                    == old(self)@.upcoming.skip(1)
            }),
    {
        proof {
            reveal(GameView::after_hold);
        }
        if self.over {
            return ;
        }
        let shadow = self.shadow;
        let active = self.active;
        proof {
            lemma_can_lift(self@, self.field.spec_height() as nat, self.field.spec_width() as nat);
        }
        self.field.remove(&shadow);
        self.field.remove(&active);
        let next = match self.held {
            Some(name) => Piece::new_by_name(name),
            None => self.source.next(),
        };
        self.held = Some(active.name);
        self.spawn(next);
    }

    /// Locks the piece in play where it lies, clears the rows that this has
    /// filled, counts them, and brings in the next piece. Says whether the
    /// game goes on: it is over if the next piece has no room.
    #[verifier::rlimit(40)]
    pub fn lock(&mut self) -> (alive: bool)
        requires
            old(self).wf(),
        ensures
            final(self).wf(),
            final(self).spec_height() == old(self).spec_height(),
            final(self).spec_width() == old(self).spec_width(),
            final(self)@ == old(self)@.after_lock(final(self)@.upcoming.last()),
            alive == !final(self)@.over,
            final(self)@.level == level_for(final(self)@.lines as nat),
            old(self)@.over ==> final(self)@ == old(self)@,
            !old(self)@.over ==> ({
                let rows = full_rows_of(old(self)@.locked());
                let cleared = compacted(old(self)@.locked(), rows);
                &&& rows.len() <= 4
                &&& final(self)@.lines == capped(old(self)@.lines + rows.len())
                &&& final(self)@.score == capped(
                    old(self)@.score + line_award(rows.len()) * final(self)@.level,
                )
                &&& final(self)@.held == old(self)@.held
                &&& final(self)@.upcoming.drop_last() == old(self)@.upcoming.skip(1)
                &&& final(self)@.active == Piece::spawn(old(self)@.upcoming[0])
                &&& final(self)@.over == !piece_fits(cleared, Piece::spawn(old(self)@.upcoming[0]))
                &&& final(self)@.over ==> final(self)@.surface == cleared
                &&& !final(self)@.over ==> final(self)@.base() == cleared
            }),
    {
        proof {
            reveal(GameView::after_lock);
        }
        if self.over {
            return false;
        }
        let shadow = self.shadow;
        let active = self.active;
        let ghost height = self.field.spec_height() as nat;
        let ghost width = self.field.spec_width() as nat;
        proof {
            lemma_can_lift(self@, height, width);
            lemma_at_most_four_full(self@.base(), height, width, active);
        }
        self.field.remove(&shadow);
        self.field.remove(&active);
        self.field.add(&active);
        let rows = self.field.full_rows();
        let cleared = rows.len();
        proof {
            lemma_clearing_leaves_no_full_row(self.field@, height, width);
        }
        self.field.clear_rows(rows);
        self.lines = self.lines.saturating_add(cleared);
        self.level = level_of(self.lines);
        self.score = score_after_clear(self.score, cleared, self.level);
        let next = self.source.next();
        self.spawn(next);
        !self.over
    }

    /// The field, with the piece in play and its shadow on it.
    pub fn field(&self) -> (field: &Field)
        ensures
            field@ == self@.surface,
            field.spec_height() == self.spec_height(),
            field.spec_width() == self.spec_width(),
            self.wf() ==> field.wf(),
    {
        &self.field
    }

    /// The piece in play.
    pub fn active(&self) -> (piece: Piece)
        ensures
            piece == self@.active,
    {
        self.active
    }

    /// Where the piece in play would come to rest, as outlines.
    pub fn shadow(&self) -> (piece: Piece)
        ensures
            piece == self@.shadow,
    {
        self.shadow
    }

    /// The name of the piece that was set aside, if one was.
    pub fn held(&self) -> (held: Option<PieceName>)
        ensures
            held == self@.held,
    {
        self.held
    }

    /// The picture of the piece that was set aside, or a blank of the same
    /// width if none was.
    pub fn held_text(&self) -> (text: &'static str)
        ensures
            text@ == (match self@.held {
                Some(name) => name.spec_preview(),
                None => "        \n\n\n"@,
            }),
    {
        match self.held {
            Some(name) => name.preview_text(),
            None => "        \n\n\n",
        }
    }

    /// The names of the next `LOOKAHEAD` pieces, the next one first.
    pub fn upcoming(&self) -> (names: Vec<PieceName>)
        requires
            self.wf(),
        ensures
            names@ == self@.upcoming.take(LOOKAHEAD as int),
    {
        self.source.preview()
    }

    pub fn score(&self) -> (score: usize)
        ensures
            score == self@.score,
    {
        self.score
    }

    /// How many lines were cleared so far.
    pub fn lines(&self) -> (lines: usize)
        ensures
            lines == self@.lines,
    {
        self.lines
    }

    pub fn level(&self) -> (level: usize)
        ensures
            level == self@.level,
    {
        self.level
    }

    /// Whether the game has ended.
    pub fn is_over(&self) -> (over: bool)
        ensures
            over == self@.over,
    {
        self.over
    }
}

} // verus!
