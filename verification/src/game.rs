//! One session of the game: what a command does, and what one tick does.
//!
//! The caller owns the clock, the keyboard, the sound and the screen. It hands
//! in commands and elapsed time, and gets back what to play and what to paint.

use vstd::prelude::*;
use std::time::Duration;
use crate::collision::resolved;
use crate::frame::{Cell, Drawable, Frame};
use crate::invaders::{Invader, Invaders, SwarmView};
use crate::player::{live_after, Player, PlayerView, MAX_SHOTS};
use crate::shot::ShotView;
use crate::timer::duration_nanos;

verus! {

/// A command from the input source.
#[derive(Clone, Copy, PartialEq, Eq, Structural, Debug)]
pub enum Command {
    /// Move the ship one column to the left.
    MoveLeft,
    /// Move the ship one column to the right.
    MoveRight,
    /// Fire a shot.
    Fire,
    /// End the session.
    Quit,
}

/// A sound that the caller is asked to play.
#[derive(Clone, Copy, PartialEq, Eq, Structural, Debug)]
pub enum Cue {
    /// A shot was fired.
    Pew,
    /// The swarm took a step.
    Move,
    /// A shot hit an invader.
    Explode,
    /// The session is won.
    Win,
    /// The session is lost or was given up.
    Lose,
}

/// Where a session stands.
#[derive(Clone, Copy, PartialEq, Eq, Structural, Debug)]
pub enum Status {
    /// The session goes on.
    Running,
    /// Every invader is gone.
    Won,
    /// An invader has reached the player's row.
    Lost,
    /// The player has quit.
    Aborted,
}

/// Where a session stands, going by the swarm alone. A swarm that is empty
/// wins, even if the lose condition holds as well.
pub open spec fn verdict(swarm: SwarmView) -> Status {
    if swarm.all_killed() {
        Status::Won
    } else if swarm.reached_bottom() {
        Status::Lost
    } else {
        Status::Running
    }
}

/// A session as plain values.
pub struct GameView {
    /// The player.
    pub player: PlayerView,
    /// The swarm.
    pub swarm: SwarmView,
    /// Where the session stands.
    pub status: Status,
}

impl GameView {
    /// The invariant of a session: player and swarm are well formed and live on
    /// the same grid, with the player in its last row; and while the session is
    /// running no invader has reached that row.
    pub open spec fn wf(self) -> bool {
        &&& self.player.wf()
        &&& self.swarm.wf()
        &&& self.swarm.cols == self.player.cols
        &&& self.swarm.rows == self.player.y + 1
        &&& self.status == Status::Running ==> !self.swarm.reached_bottom()
    }

    /// The session after `command`. A session that is over ignores commands.
    pub open spec fn applied(self, command: Command) -> GameView {
        if self.status != Status::Running {
            self
        } else {
            match command {
                Command::MoveLeft => GameView {
                    player: PlayerView {
                        x: if self.player.x > 0 {
                            (self.player.x - 1) as nat
                        } else {
                            0
                        },
                        ..self.player
                    },
                    ..self
                },
                Command::MoveRight => GameView {
                    player: PlayerView {
                        x: if self.player.x + 1 < self.player.cols {
                            self.player.x + 1
                        } else {
                            self.player.x
                        },
                        ..self.player
                    },
                    ..self
                },
                Command::Fire => if self.player.shots.len() < MAX_SHOTS {
                    GameView {
                        player: PlayerView {
                            shots: self.player.shots.push(
                                ShotView::fired(self.player.x, (self.player.y - 1) as nat),
                            ),
                            ..self.player
                        },
                        ..self
                    }
                } else {
                    self
                },
                Command::Quit => GameView { status: Status::Aborted, ..self },
            }
        }
    }

    /// The sound that goes with `command`: a shot that is fired is heard, and so
    /// is giving up.
    pub open spec fn cue_for(self, command: Command) -> Option<Cue> {
        if self.status != Status::Running {
            None
        } else {
            match command {
                Command::Fire => if self.player.shots.len() < MAX_SHOTS {
                    Some(Cue::Pew)
                } else {
                    None
                },
                Command::Quit => Some(Cue::Lose),
                _ => None,
            }
        }
    }

    /// The session after `commands`, applied in order.
    pub open spec fn applied_all(self, commands: Seq<Command>) -> GameView
        decreases commands.len(),
    {
        if commands.len() == 0 {
            self
        } else {
            self.applied_all(commands.drop_last()).applied(commands.last())
        }
    }

    /// The sounds that go with `commands`, in order.
    pub open spec fn cues_for_all(self, commands: Seq<Command>) -> Seq<Cue>
        decreases commands.len(),
    {
        if commands.len() == 0 {
            Seq::empty()
        } else {
            let earlier = self.cues_for_all(commands.drop_last());
            match self.applied_all(commands.drop_last()).cue_for(commands.last()) {
                Some(cue) => earlier.push(cue),
                None => earlier,
            }
        }
    }

    /// The session after a tick of `delta` nanoseconds: the shots age, the swarm
    /// advances, collisions are resolved, and the result is judged. A session
    /// that is over stays as it is.
    pub open spec fn ticked(self, delta: nat) -> GameView {
        if self.status != Status::Running {
            self
        } else {
            let swarm = self.swarm.advanced(delta);
            let outcome = resolved(live_after(self.player.shots, delta), swarm.army);
            let left = SwarmView { army: outcome.army, ..swarm };
            GameView {
                player: PlayerView { shots: outcome.shots, ..self.player },
                swarm: left,
                status: verdict(left),
            }
        }
    }

    /// Whether the swarm steps in a tick of `delta` nanoseconds.
    pub open spec fn steps(self, delta: nat) -> bool {
        self.status == Status::Running && self.swarm.due(delta)
    }

    /// Whether a shot hits an invader in a tick of `delta` nanoseconds.
    pub open spec fn hits(self, delta: nat) -> bool {
        self.status == Status::Running && self.ticked(delta).player.shots.len() < live_after(
            self.player.shots,
            delta,
        ).len()
    }

    /// What the cell in column `x`, row `y` of the session's picture shows: the
    /// player drawn on an empty grid, and the swarm drawn over that.
    pub open spec fn picture(self, x: int, y: int) -> Cell {
        self.swarm.painted(x, y, self.player.painted(x, y, Cell::Empty))
    }
}

/// When a session is won and when it is lost: it is won exactly if no invader
/// is left, and lost exactly if some invader is in the player's row or below
/// it. The two never hold together, so the order in which they are tested
/// decides nothing.
pub proof fn lemma_win_and_lose(game: GameView)
    requires
        game.wf(),
    ensures
        verdict(game.swarm) == Status::Won <==> game.swarm.army.len() == 0,
        verdict(game.swarm) == Status::Lost <==> exists|i: int|
            0 <= i < game.swarm.army.len() && (#[trigger] game.swarm.army[i]).y >= game.player.y,
        game.swarm.reached_bottom() <==> exists|i: int|
            0 <= i < game.swarm.army.len() && (#[trigger] game.swarm.army[i]).y >= game.player.y,
        !(game.swarm.all_killed() && game.swarm.reached_bottom()),
{
    if game.swarm.reached_bottom() {
        let i = choose|i: int| 0 <= i < game.swarm.army.len() && (#[trigger] game.swarm.army[i]).y + 1 >= game.swarm.rows;
        assert(game.swarm.army[i].y >= game.player.y);
    }
    if exists|i: int| 0 <= i < game.swarm.army.len() && (#[trigger] game.swarm.army[i]).y >= game.player.y {
        let i = choose|i: int| 0 <= i < game.swarm.army.len() && (#[trigger] game.swarm.army[i]).y >= game.player.y;
        assert(game.swarm.army[i].y + 1 >= game.swarm.rows);
    }
}

/// What one tick hands back to the caller.
pub struct Report {
    /// Whether the swarm took a step.
    pub stepped: bool,
    /// Whether a shot hit an invader.
    pub hit: bool,
    /// Where the session stands after the tick.
    pub status: Status,
    /// The picture to paint.
    pub frame: Frame,
}

impl Report {
    /// The sounds of the tick, in the order in which they are played: the
    /// swarm's step, a hit, and the end of the session.
    pub open spec fn spec_cues(stepped: bool, hit: bool, status: Status) -> Seq<Cue> {
        let step = if stepped { seq![Cue::Move] } else { Seq::<Cue>::empty() };
        let boom = if hit { seq![Cue::Explode] } else { Seq::<Cue>::empty() };
        let end = match status {
            Status::Won => seq![Cue::Win],
            Status::Lost => seq![Cue::Lose],
            _ => Seq::<Cue>::empty(),
        };
        step + boom + end
    }

    /// The sounds to play for this tick, in order.
    pub fn cues(&self) -> (cues: Vec<Cue>)
        ensures
            cues@ == Report::spec_cues(self.stepped, self.hit, self.status),
    {
        let mut cues: Vec<Cue> = Vec::new();
        if self.stepped {
            cues.push(Cue::Move);
        }
        if self.hit {
            cues.push(Cue::Explode);
        }
        match self.status {
            Status::Won => cues.push(Cue::Win),
            Status::Lost => cues.push(Cue::Lose),
            _ => {},
        }
        assert(cues@ =~= Report::spec_cues(self.stepped, self.hit, self.status));
        cues
    }
}

/// One session: the player, the swarm, and where the session stands.
pub struct Game {
    player: Player,
    invaders: Invaders,
    status: Status,
}

impl View for Game {
    type V = GameView;

    closed spec fn view(&self) -> GameView {
        GameView { player: self.player@, swarm: self.invaders@, status: self.status }
    }
}

impl Game {
    /// A session on the default grid, with the swarm in its starting formation.
    pub fn new() -> (game: Game)
        ensures
            game@.wf(),
            game@.status == Status::Running,
            game@.player == PlayerView::start(crate::NUM_COLS as nat, crate::NUM_ROWS as nat),
            game@.swarm == Invaders::new_view(),
    {
        let player = Player::new();
        let invaders = Invaders::new();
        proof {
            Invaders::lemma_new_view();
        }
        Game { player, invaders, status: Status::Running }
    }

    /// A session on a grid of `cols` by `rows` with the given invaders. `None`
    /// unless the grid has a column and two rows and holds every invader.
    pub fn on_grid(cols: usize, rows: usize, army: Vec<Invader>) -> (game: Option<Game>)
        ensures
            game is Some <==> cols >= 1 && rows >= 2 && forall|i: int|
                0 <= i < army@.len() ==> (#[trigger] army@[i]).x < cols && army@[i].y < rows,
            game is Some ==> {
                &&& game->0@.wf()
                &&& game->0@.player == PlayerView::start(cols as nat, rows as nat)
                &&& game->0@.swarm == Invaders::start_view(cols as nat, rows as nat, army@)
                &&& game->0@.status == verdict(game->0@.swarm)
            },
    {
        let player = match Player::on_grid(cols, rows) {
            Some(player) => player,
            None => { return None; },
        };
        let invaders = match Invaders::with_army(cols, rows, army) {
            Some(invaders) => invaders,
            None => { return None; },
        };
        let status = if invaders.all_killed() {
            Status::Won
        } else if invaders.reached_bottom() {
            Status::Lost
        } else {
            Status::Running
        };
        Some(Game { player, invaders, status })
    }

    /// Where the session stands.
    pub fn status(&self) -> (status: Status)
        ensures
            status == self@.status,
    {
        self.status
    }

    /// The player.
    pub fn player(&self) -> (player: &Player)
        ensures
            player@ == self@.player,
    {
        &self.player
    }

    /// The swarm.
    pub fn invaders(&self) -> (invaders: &Invaders)
        ensures
            invaders@ == self@.swarm,
    {
        &self.invaders
    }

    /// Applies one command and returns the sound that goes with it, if any.
    pub fn apply(&mut self, command: Command) -> (cue: Option<Cue>)
        requires
            old(self)@.wf(),
        ensures
            final(self)@.wf(),
            final(self)@ == old(self)@.applied(command),
            cue == old(self)@.cue_for(command),
    {
        if self.status != Status::Running {
            return None;
        }
        match command {
            Command::MoveLeft => {
                self.player.move_left();
                None
            },
            Command::MoveRight => {
                self.player.move_right();
                None
            },
            Command::Fire => {
                if self.player.shoot() {
                    Some(Cue::Pew)
                } else {
                    None
                }
            },
            Command::Quit => {
                self.status = Status::Aborted;
                Some(Cue::Lose)
            },
        }
    }

    /// Applies the commands of one tick in order and returns the sounds that go
    /// with them. Commands that follow a quit are ignored.
    pub fn apply_all(&mut self, commands: &Vec<Command>) -> (cues: Vec<Cue>)
        requires
            old(self)@.wf(),
        ensures
            final(self)@.wf(),
            final(self)@ == old(self)@.applied_all(commands@),
            cues@ == old(self)@.cues_for_all(commands@),
    {
        let mut cues: Vec<Cue> = Vec::new();
        let mut i: usize = 0;
        while i < commands.len()
            invariant
                i <= commands@.len(),
                self@.wf(),
                self@ == old(self)@.applied_all(commands@.take(i as int)),
                cues@ == old(self)@.cues_for_all(commands@.take(i as int)),
            decreases commands@.len() - i,
        {
            proof {
                assert(commands@.take(i + 1).drop_last() =~= commands@.take(i as int));
                assert(commands@.take(i + 1).last() == commands@[i as int]);
            }
            match self.apply(commands[i]) {
                Some(cue) => cues.push(cue),
                None => {},
            }
            i += 1;
        }
        proof {
            assert(commands@.take(i as int) =~= commands@);
        }
        cues
    }

    /// The picture of the session as it stands.
    pub fn draw(&self) -> (frame: Frame)
        requires
            self@.wf(),
        ensures
            frame.wf(),
            frame.spec_cols() == self@.swarm.cols,
            frame.spec_rows() == self@.swarm.rows,
            forall|x: int, y: int|
                0 <= x < frame.spec_cols() && 0 <= y < frame.spec_rows() ==> #[trigger] frame.at(x, y)
                    == self@.picture(x, y),
    {
        let mut frame = Frame::with_size(self.invaders.cols(), self.invaders.rows());
        self.player.draw(&mut frame);
        self.invaders.draw(&mut frame);
        frame
    }

    /// Runs one tick: ages the shots, advances the swarm, resolves collisions,
    /// judges the result and draws the picture.
    pub fn tick(&mut self, delta: Duration) -> (report: Report)
        requires
            old(self)@.wf(),
        ensures
            final(self)@.wf(),
            final(self)@ == old(self)@.ticked(duration_nanos(delta)),
            report.stepped == old(self)@.steps(duration_nanos(delta)),
            report.hit == old(self)@.hits(duration_nanos(delta)),
            report.status == final(self)@.status,
            report.frame.wf(),
            report.frame.spec_cols() == final(self)@.swarm.cols,
            report.frame.spec_rows() == final(self)@.swarm.rows,
            forall|x: int, y: int|
                0 <= x < report.frame.spec_cols() && 0 <= y < report.frame.spec_rows()
                    ==> #[trigger] report.frame.at(x, y) == final(self)@.picture(x, y),
    {
        let mut stepped: bool = false;
        let mut hit: bool = false;
        if self.status == Status::Running {
            self.player.update(delta);
            stepped = self.invaders.update(delta);
            hit = self.player.detect_hits(&mut self.invaders);
            self.status = if self.invaders.all_killed() {
                Status::Won
            } else if self.invaders.reached_bottom() {
                Status::Lost
            } else {
                Status::Running
            };
        }
        let frame = self.draw();
        Report { stepped, hit, status: self.status, frame }
    }
}

} // verus!
