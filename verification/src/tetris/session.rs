//! A session of play: what a game does with each command of the player and
//! with each tick of the clock. Whoever runs the session reads the keys and
//! keeps the time.

use vstd::prelude::*;
use crate::tetris::game::{GameState, GameView, Move};
use crate::tetris::piece::PieceName;
use crate::tetris::scoring::{tick_budget, tick_millis};

verus! {

/// What a player can ask for.
#[derive(Copy, Clone, Debug, PartialEq, Eq, Structural)]
pub enum Command {
    MoveLeft,
    MoveRight,
    SoftDrop,
    HardDrop,
    RotateLeft,
    RotateRight,
    Hold,
    Quit,
}

impl Command {
    /// The command that a key stands for, by the byte that the key sends:
    /// `j`, `k`, `l` or the last byte of an arrow key to move, `i`, the up
    /// arrow or the space bar to drop, `d` and `f` to turn, `s` to set the
    /// piece aside, `q` to leave.
    pub open spec fn for_key(key: u8) -> Option<Command> {
        if key == 68 || key == 106 {
            Some(Command::MoveLeft)
        } else if key == 67 || key == 108 {
            Some(Command::MoveRight)
        } else if key == 66 || key == 107 {
            Some(Command::SoftDrop)
        } else if key == 65 || key == 105 || key == 32 {
            Some(Command::HardDrop)
        } else if key == 100 {
            Some(Command::RotateLeft)
        } else if key == 102 {
            Some(Command::RotateRight)
        } else if key == 115 {
            Some(Command::Hold)
        } else if key == 113 {
            Some(Command::Quit)
        } else {
            None
        }
    }

    /// The command that a key stands for, if it stands for one.
    pub fn from_key(key: u8) -> (command: Option<Command>)
        ensures
            command == Command::for_key(key),
    {
        if key == 68 || key == 106 {
            Some(Command::MoveLeft)
        } else if key == 67 || key == 108 {
            Some(Command::MoveRight)
        } else if key == 66 || key == 107 {
            Some(Command::SoftDrop)
        } else if key == 65 || key == 105 || key == 32 {
            Some(Command::HardDrop)
        } else if key == 100 {
            Some(Command::RotateLeft)
        } else if key == 102 {
            Some(Command::RotateRight)
        } else if key == 115 {
            Some(Command::Hold)
        } else if key == 113 {
            Some(Command::Quit)
        } else {
            None
        }
    }
}

/// What a session is, apart from how it is stored.
pub struct SessionView {
    pub game: GameView,
    /// Whether the piece in play may still be set aside. A piece may be set
    /// aside once between two locks.
    pub can_hold: bool,
    /// Whether play goes on: it ends when the game is over or the player
    /// leaves.
    pub running: bool,
}

impl SessionView {
    /// The session after a tick of the clock. The piece in play falls a row
    /// for no reward. If it cannot, it is locked and the next piece comes
    /// from the queue, which `fresh` fills up; the new piece may be set
    /// aside. If the game is over by then, play ends.
    pub open spec fn after_tick(self, fresh: PieceName) -> SessionView {
        if !self.running {
            self
        } else if self.game.can_move(Move::Down(0)) {
            SessionView { game: self.game.after_move(Move::Down(0)), ..self }
        } else {
            let game = self.game.after_lock(fresh);
            SessionView {
                game,
                can_hold: if game.over {
                    self.can_hold
                } else {
                    true
                },
                running: !game.over,
            }
        }
    }

    /// The session after a command of the player. A soft drop is a move down
    /// that is rewarded with as many points as the level counts. A piece is
    /// set aside only if none was since the last lock. `fresh` fills the
    /// queue up if a piece is taken from it.
    pub open spec fn after_command(self, command: Command, fresh: PieceName) -> SessionView {
        if !self.running {
            self
        } else {
            match command {
                Command::MoveLeft => SessionView { game: self.game.after_move(Move::Left), ..self },
                Command::MoveRight => SessionView {
                    game: self.game.after_move(Move::Right),
                    ..self
                },
                Command::SoftDrop => SessionView {
                    game: self.game.after_move(Move::Down(self.game.level)),
                    ..self
                },
                Command::HardDrop => SessionView { game: self.game.after_hard_drop(), ..self },
                Command::RotateLeft => SessionView {
                    game: self.game.after_move(Move::RotateLeft),
                    ..self
                },
                Command::RotateRight => SessionView {
                    game: self.game.after_move(Move::RotateRight),
                    ..self
                },
                Command::Hold => if self.can_hold {
                    let game = self.game.after_hold(fresh);
                    SessionView { game, can_hold: false, running: !game.over }
                } else {
                    self
                },
                Command::Quit => SessionView { running: false, ..self },
            }
        }
    }

    /// The session after a key was pressed: what the command does for which
    /// the key stands, and nothing if it stands for none.
    pub open spec fn after_key(self, key: u8, fresh: PieceName) -> SessionView {
        match Command::for_key(key) {
            Some(command) => self.after_command(command, fresh),
            None => self,
        }
    }
}

/// A piece is set aside once at most between two locks. Once a piece was
/// set aside, another command to set one aside changes nothing.
#[verifier::rlimit(40)]
pub proof fn lemma_hold_once(s: SessionView, fresh: PieceName, again: PieceName)
    requires
        s.running,
        s.can_hold,
    ensures
        !s.after_command(Command::Hold, fresh).can_hold,
        s.after_command(Command::Hold, fresh).after_command(Command::Hold, again)
            == s.after_command(Command::Hold, fresh),
{
}

/// No command allows a piece to be set aside if it was not allowed before.
#[verifier::rlimit(40)]
pub proof fn lemma_commands_allow_no_hold(s: SessionView, command: Command, fresh: PieceName)
    ensures
        s.after_command(command, fresh).can_hold ==> s.can_hold,
{
}

/// A tick allows a piece to be set aside again only if it locks the piece
/// in play and the game goes on.
#[verifier::rlimit(40)]
pub proof fn lemma_tick_allows_hold(s: SessionView, fresh: PieceName)
    requires
        !s.can_hold,
        s.after_tick(fresh).can_hold,
    ensures
        s.running,
        !s.game.can_move(Move::Down(0)),
        s.after_tick(fresh).game == s.game.after_lock(fresh),
        !s.after_tick(fresh).game.over,
{
}

/// A game in play.
pub struct Session {
    game: GameState,
    can_hold: bool,
    running: bool,
}

impl View for Session {
    type V = SessionView;

    closed spec fn view(&self) -> SessionView {
        SessionView { game: self.game@, can_hold: self.can_hold, running: self.running }
    }
}

impl Session {
    /// The game is well formed, and play goes on only while it is not over.
    pub closed spec fn wf(&self) -> bool {
        &&& self.game.wf()
        &&& self.running ==> !self.game@.over
    }

    /// A well-formed session is not running a game that is over.
    pub proof fn lemma_wf(&self)
        requires
            self.wf(),
        ensures
            self@.game.inv(),
            self@.running ==> !self@.game.over,
    {
        self.game.lemma_wf();
    }

    /// A session of `game`, which runs unless the game is already over. The
    /// piece in play may be set aside.
    pub fn new(game: GameState) -> (session: Session)
        requires
            game.wf(),
        ensures
            session.wf(),
            session@ == (SessionView { game: game@, can_hold: true, running: !game@.over }),
    {
        let running = !game.is_over();
        Session { game, can_hold: true, running }
    }

    /// The clock has ticked: the piece in play falls a row, or is locked if
    /// it cannot fall. Says whether play goes on.
    #[verifier::rlimit(40)]
    pub fn tick(&mut self) -> (running: bool)
        requires
            old(self).wf(),
        ensures
            final(self).wf(),
            final(self)@ == old(self)@.after_tick(final(self)@.game.upcoming.last()),
            running == final(self)@.running,
    {
        if !self.running {
            return false;
        }
        if !self.game.move_down(0) {
            if self.game.lock() {
                self.can_hold = true;
            } else {
                self.running = false;
            }
        }
        self.running
    }

    /// Makes a move in the game of a running session.
    #[verifier::rlimit(40)]
    fn make(&mut self, m: Move)
        requires
            old(self).wf(),
            old(self).running,
        ensures
            final(self).wf(),
            final(self)@ == (SessionView { game: old(self)@.game.after_move(m), ..old(self)@ }),
    {
        self.game.apply(m);
    }

    /// Drops the piece in play of a running session.
    #[verifier::rlimit(40)]
    fn drop_piece(&mut self)
        requires
            old(self).wf(),
            old(self).running,
        ensures
            final(self).wf(),
            final(self)@ == (SessionView { game: old(self)@.game.after_hard_drop(), ..old(self)@ }),
    {
        self.game.hard_drop();
    }

    /// Sets the piece in play of a running session aside, if that is still
    /// allowed.
    #[verifier::rlimit(40)]
    fn set_aside(&mut self)
        requires
            old(self).wf(),
            old(self).running,
        ensures
            final(self).wf(),
            final(self)@ == old(self)@.after_command(
                Command::Hold,
                final(self)@.game.upcoming.last(),
            ),
    {
        if self.can_hold {
            self.game.hold();
            self.can_hold = false;
            self.running = !self.game.is_over();
        }
    }

    /// The player has given a command. Says whether the wait for the next
    /// tick ends at once: it does after a hard drop, so that the piece locks
    /// without delay, and when play has ended.
    #[verifier::rlimit(40)]
    pub fn handle(&mut self, command: Command) -> (tick_now: bool)
        requires
            old(self).wf(),
        ensures
            final(self).wf(),
            final(self)@ == old(self)@.after_command(command, final(self)@.game.upcoming.last()),
            tick_now == (!final(self)@.running || command == Command::HardDrop),
    {
        if !self.running {
            return true;
        }
        match command {
            Command::MoveLeft => {
                self.make(Move::Left);
            },
            Command::MoveRight => {
                self.make(Move::Right);
            },
            Command::SoftDrop => {
                let reward = self.game.level();
                self.make(Move::Down(reward));
            },
            Command::HardDrop => {
                self.drop_piece();
                return true;
            },
            Command::RotateLeft => {
                self.make(Move::RotateLeft);
            },
            Command::RotateRight => {
                self.make(Move::RotateRight);
            },
            Command::Hold => {
                self.set_aside();
            },
            Command::Quit => {
                self.running = false;
            },
        }
        !self.running
    }

    /// A key was pressed. A key that stands for a command gives that command.
    /// Any other key changes nothing and ends the wait for the next tick at
    /// once.
    #[verifier::rlimit(40)]
    pub fn on_key(&mut self, key: u8) -> (tick_now: bool)
        requires
            old(self).wf(),
        ensures
            final(self).wf(),
            final(self)@ == old(self)@.after_key(key, final(self)@.game.upcoming.last()),
            tick_now == (match Command::for_key(key) {
                Some(command) => !final(self)@.running || command == Command::HardDrop,
                None => true,
            }),
    {
        match Command::from_key(key) {
            Some(command) => self.handle(command),
            None => true,
        }
    }

    /// For how many milliseconds the piece in play rests before the clock
    /// ticks, at the level that the game has reached.
    pub fn tick_millis(&self) -> (millis: u64)
        ensures
            millis == tick_budget(self@.game.level as nat),
    {
        tick_millis(self.game.level())
    }

    /// The game.
    pub fn game(&self) -> (game: &GameState)
        ensures
            game@ == self@.game,
            self.wf() ==> game.wf(),
    {
        &self.game
    }

    /// Whether the piece in play may still be set aside.
    pub fn can_hold(&self) -> (can_hold: bool)
        ensures
            can_hold == self@.can_hold,
    {
        self.can_hold
    }

    /// Whether play goes on.
    pub fn is_running(&self) -> (running: bool)
        ensures
            running == self@.running,
    {
        self.running
    }
}

} // verus!
