//! Where the pieces come from: a queue of names, filled up at random.

use vstd::prelude::*;
use crate::tetris::piece::{Piece, PieceName, PIECE_KINDS};

verus! {

/// How many of the coming pieces can always be shown.
pub const LOOKAHEAD: usize = 6;

/// `rand::Rng::gen_range` on the thread's generator, `rand::thread_rng`, with
/// the range `0..bound`: some number of that range. Which one is a matter of
/// chance, and nothing more is said of it. The call panics on an empty
/// range, so `bound` is not 0. It can also fail where the system has no
/// randomness to seed the generator with.
#[verifier::external_body]
fn random_below(bound: usize) -> (n: usize)
    requires
        0 < bound,
    ensures
        n < bound,
{
    rand::Rng::gen_range(&mut rand::thread_rng(), 0..bound)
}

/// The queue of coming pieces, by name. The piece that comes next is at the
/// head. The queue never gets shorter than `LOOKAHEAD`.
pub struct PieceSource {
    upcoming: Vec<PieceName>,
}

impl View for PieceSource {
    type V = Seq<PieceName>;

    /// The names of the coming pieces, the next one first.
    closed spec fn view(&self) -> Seq<PieceName> {
        self.upcoming@
    }
}

impl PieceSource {
    /// At least `LOOKAHEAD` pieces are in the queue.
    pub open spec fn wf(&self) -> bool {
        self@.len() >= LOOKAHEAD
    }

    /// A place in the list of names, picked at random.
    pub fn draw_index() -> (index: usize)
        ensures
            index < PIECE_KINDS,
    {
        random_below(PIECE_KINDS)
    }

    /// A name picked at random.
    pub fn draw() -> (name: PieceName) {
        match PieceName::from_index(PieceSource::draw_index()) {
            Some(name) => name,
            None => PieceName::I,
        }
    }

    /// A queue of `LOOKAHEAD` names picked at random.
    pub fn new() -> (source: PieceSource)
        ensures
            source.wf(),
            source@.len() == LOOKAHEAD,
    {
        let mut upcoming: Vec<PieceName> = Vec::new();
        while upcoming.len() < LOOKAHEAD
            invariant
                upcoming@.len() <= LOOKAHEAD,
            decreases LOOKAHEAD - upcoming@.len(),
        {
            upcoming.push(PieceSource::draw());
        }
        PieceSource { upcoming }
    }

    /// A queue of the given names, the first of which comes first, if there
    /// are at least `LOOKAHEAD` of them.
    pub fn from_names(names: Vec<PieceName>) -> (made: Option<PieceSource>)
        ensures
            made is Some <==> names@.len() >= LOOKAHEAD,
            made matches Some(source) ==> source@ == names@ && source.wf(),
    {
        if names.len() >= LOOKAHEAD {
            Some(PieceSource { upcoming: names })
        } else {
            None
        }
    }

    /// Takes the piece at the head of the queue and puts `fresh` at its end.
    /// The piece is handed out as it enters the field.
    pub fn advance(&mut self, fresh: PieceName) -> (piece: Piece)
        requires
            old(self).wf(),
        ensures
            final(self).wf(),
            piece == Piece::spawn(old(self)@[0]),
            final(self)@ == old(self)@.skip(1).push(fresh),
    {
        let name = self.upcoming.remove(0);
        self.upcoming.push(fresh);
        proof {
            assert(old(self)@.remove(0) =~= old(self)@.skip(1));
        }
        Piece::new_by_name(name)
    }

    /// Takes the piece at the head of the queue and fills the queue up with
    /// a name picked at random, which is then the last of the queue.
    pub fn next(&mut self) -> (piece: Piece)
        requires
            old(self).wf(),
        ensures
            final(self).wf(),
            piece == Piece::spawn(old(self)@[0]),
            final(self)@ == old(self)@.skip(1).push(final(self)@.last()),
    {
        let fresh = PieceSource::draw();
        self.advance(fresh)
    }

    /// The names of the next `LOOKAHEAD` pieces, the next one first.
    pub fn preview(&self) -> (names: Vec<PieceName>)
        requires
            self.wf(),
        ensures
            names@ == self@.take(LOOKAHEAD as int),
    {
        let mut names: Vec<PieceName> = Vec::new();
        let mut i: usize = 0;
        while i < LOOKAHEAD
            invariant
                self.wf(),
                i <= LOOKAHEAD,
                names@ == self@.take(i as int),
            decreases LOOKAHEAD - i,
        {
            names.push(self.upcoming[i]);
            proof {
                assert(self@.take(i + 1) =~= self@.take(i as int).push(self@[i as int]));
            }
            i += 1;
        }
        names
    }
}

} // verus!
