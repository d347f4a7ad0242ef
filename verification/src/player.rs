//! The player's ship: it moves along the bottom row and owns the live shots.

use vstd::prelude::*;
use std::time::Duration;
use crate::collision::{resolve_one, resolved, Outcome};
use crate::frame::{Cell, Drawable, Frame};
use crate::invaders::{Invaders, SwarmView};
use crate::shot::{Shot, ShotView};
use crate::timer::duration_nanos;

verus! {

/// How many shots can be live at once.
pub const MAX_SHOTS: usize = 2;

/// The aging of a shot by `delta` nanoseconds, as a function.
pub open spec fn aging(delta: nat) -> spec_fn(ShotView) -> ShotView {
    |s: ShotView| s.aged(delta)
}

/// The test that a shot is still alive, as a function.
pub open spec fn alive() -> spec_fn(ShotView) -> bool {
    |s: ShotView| !s.dead()
}

/// The shots that are left of `shots` after `delta` nanoseconds: each one aged,
/// and the dead ones taken out.
pub open spec fn live_after(shots: Seq<ShotView>, delta: nat) -> Seq<ShotView> {
    shots.map_values(aging(delta)).filter(alive())
}

/// Whether `shot` is one of `shots` after `delta` nanoseconds.
pub open spec fn aged_from(shots: Seq<ShotView>, delta: nat, shot: ShotView) -> bool {
    exists|i: int| 0 <= i < shots.len() && (#[trigger] shots[i]).aged(delta) == shot
}

/// After an update every shot that is left is alive and is one of the old
/// shots, aged; no shot is added.
pub proof fn lemma_update_adds_nothing(shots: Seq<ShotView>, delta: nat)
    ensures
        live_after(shots, delta).len() <= shots.len(),
        forall|j: int|
            0 <= j < live_after(shots, delta).len() ==> !(#[trigger] live_after(shots, delta)[j]).dead(),
        forall|j: int|
            0 <= j < live_after(shots, delta).len() ==> aged_from(
                shots,
                delta,
                #[trigger] live_after(shots, delta)[j],
            ),
{
    let aged = shots.map_values(aging(delta));
    let left = live_after(shots, delta);
    aged.lemma_filter_len(alive());
    assert forall|j: int| 0 <= j < left.len() implies !(#[trigger] left[j]).dead() && aged_from(
        shots,
        delta,
        left[j],
    ) by {
        aged.lemma_filter_pred(alive(), j);
        assert(left.contains(left[j]));
        aged.lemma_filter_contains_rev(alive(), left[j]);
        let i = choose|i: int| 0 <= i < aged.len() && aged[i] == left[j];
        assert(shots[i].aged(delta) == left[j]);
    }
}

/// A shot whose lifetime has elapsed is not among the shots that are left
/// after the update.
pub proof fn lemma_expired_shot_leaves(shots: Seq<ShotView>, delta: nat, i: int)
    requires
        0 <= i < shots.len(),
        shots[i].timer.finished || shots[i].timer.remaining <= delta,
    ensures
        shots[i].aged(delta).dead(),
        !live_after(shots, delta).contains(shots[i].aged(delta)),
{
    lemma_update_adds_nothing(shots, delta);
}

/// A shot whose lifetime has not elapsed is still there after the update.
pub proof fn lemma_live_shot_stays(shots: Seq<ShotView>, delta: nat, i: int)
    requires
        0 <= i < shots.len(),
        !shots[i].timer.finished,
        shots[i].timer.remaining > delta,
    ensures
        live_after(shots, delta).contains(shots[i].aged(delta)),
{
    let aged = shots.map_values(aging(delta));
    assert(aged[i] == shots[i].aged(delta));
    aged.lemma_filter_contains(alive(), i);
}

/// A shot that an update has removed does not come back: updating the shots
/// that are left, by any amount of time, yields none that was not left.
pub proof fn lemma_update_never_revives(shots: Seq<ShotView>, first: nat, second: nat)
    ensures
        live_after(live_after(shots, first), second).len() <= live_after(shots, first).len(),
        forall|j: int|
            0 <= j < live_after(live_after(shots, first), second).len() ==> aged_from(
                live_after(shots, first),
                second,
                #[trigger] live_after(live_after(shots, first), second)[j],
            ),
{
    lemma_update_adds_nothing(live_after(shots, first), second);
}

/// The plain values of a sequence of shots.
pub open spec fn shot_views(shots: Seq<Shot>) -> Seq<ShotView> {
    shots.map_values(|s: Shot| s@)
}

/// Whether some shot of `shots` is in column `x`, row `y`.
pub open spec fn shot_at(shots: Seq<ShotView>, x: int, y: int) -> bool {
    exists|i: int| 0 <= i < shots.len() && (#[trigger] shots[i]).is_at(x, y)
}

/// The player as plain values.
pub struct PlayerView {
    /// Column of the ship.
    pub x: nat,
    /// Row of the ship: the last row of the grid.
    pub y: nat,
    /// Columns of the grid.
    pub cols: nat,
    /// The live shots, oldest first.
    pub shots: Seq<ShotView>,
}

impl PlayerView {
    /// The invariant of a player: the ship is inside the grid and not in its
    /// first row, at most two shots are live, and every shot is inside the grid
    /// and above the ship's row.
    pub open spec fn wf(self) -> bool {
        &&& self.x < self.cols
        &&& self.y >= 1
        &&& self.shots.len() <= MAX_SHOTS
        &&& forall|i: int|
            0 <= i < self.shots.len() ==> (#[trigger] self.shots[i]).x < self.cols && self.shots[i].y
                < self.y
    }

    /// What a cell shows once the player has been drawn over a cell that showed
    /// `under`: a shot where a shot is, the ship where the ship is, and
    /// elsewhere what was there.
    pub open spec fn painted(self, x: int, y: int, under: Cell) -> Cell {
        if shot_at(self.shots, x, y) {
            Cell::Shot
        } else if self.x == x && self.y == y {
            Cell::Player
        } else {
            under
        }
    }

    /// The player at the start of a session on a grid of `cols` by `rows`: in
    /// the middle of the last row, with no shot.
    pub open spec fn start(cols: nat, rows: nat) -> PlayerView {
        PlayerView { x: cols / 2, y: (rows - 1) as nat, cols, shots: Seq::empty() }
    }
}

/// The player's ship and its shots.
pub struct Player {
    x: usize,
    y: usize,
    cols: usize,
    shots: Vec<Shot>,
}

impl View for Player {
    type V = PlayerView;

    closed spec fn view(&self) -> PlayerView {
        PlayerView {
            x: self.x as nat,
            y: self.y as nat,
            cols: self.cols as nat,
            shots: shot_views(self.shots@),
        }
    }
}

impl Player {
    /// The player at the start of a session on the default grid.
    pub fn new() -> (player: Player)
        ensures
            player@.wf(),
            player@ == PlayerView::start(crate::NUM_COLS as nat, crate::NUM_ROWS as nat),
    {
        let player = Player {
            x: crate::NUM_COLS / 2,
            y: crate::NUM_ROWS - 1,
            cols: crate::NUM_COLS,
            shots: Vec::new(),
        };
        assert(player@.shots =~= Seq::empty());
        player
    }

    /// The player at the start of a session on a grid of `cols` by `rows`.
    /// `None` unless the grid has a column and at least two rows.
    pub fn on_grid(cols: usize, rows: usize) -> (player: Option<Player>)
        ensures
            player is Some <==> cols >= 1 && rows >= 2,
            player is Some ==> player->0@.wf() && player->0@ == PlayerView::start(cols as nat, rows as nat),
    {
        if cols >= 1 && rows >= 2 {
            let player = Player { x: cols / 2, y: rows - 1, cols, shots: Vec::new() };
            assert(player@.shots =~= Seq::empty());
            Some(player)
        } else {
            None
        }
    }

    /// The ship's column.
    pub fn x(&self) -> (x: usize)
        ensures
            x == self@.x,
    {
        self.x
    }

    /// The ship's row.
    pub fn y(&self) -> (y: usize)
        ensures
            y == self@.y,
    {
        self.y
    }

    /// The number of live shots.
    pub fn live_shots(&self) -> (n: usize)
        ensures
            n == self@.shots.len(),
    {
        self.shots.len()
    }

    /// The cell of each live shot, as (column, row), oldest shot first.
    pub fn shot_cells(&self) -> (cells: Vec<(usize, usize)>)
        ensures
            cells@.len() == self@.shots.len(),
            forall|i: int|
                0 <= i < cells@.len() ==> (#[trigger] cells@[i]).0 == self@.shots[i].x && cells@[i].1
                    == self@.shots[i].y,
    {
        let mut cells: Vec<(usize, usize)> = Vec::new();
        let mut i: usize = 0;
        while i < self.shots.len()
            invariant
                i <= self.shots@.len(),
                cells@.len() == i,
                forall|k: int|
                    0 <= k < i ==> (#[trigger] cells@[k]).0 == self@.shots[k].x && cells@[k].1
                        == self@.shots[k].y,
            decreases self.shots@.len() - i,
        {
            cells.push((self.shots[i].x(), self.shots[i].y()));
            i += 1;
        }
        cells
    }

    /// Moves the ship one column to the left, unless it is in column 0.
    pub fn move_left(&mut self)
        requires
            old(self)@.wf(),
        ensures
            final(self)@.wf(),
            final(self)@.x < final(self)@.cols,
            final(self)@ == (PlayerView {
                x: if old(self)@.x > 0 {
                    (old(self)@.x - 1) as nat
                } else {
                    0
                },
                ..old(self)@
            }),
    {
        if self.x > 0 {
            self.x -= 1;
        }
    }

    /// Moves the ship one column to the right, unless it is in the last column.
    pub fn move_right(&mut self)
        requires
            old(self)@.wf(),
        ensures
            final(self)@.wf(),
            final(self)@.x < final(self)@.cols,
            final(self)@ == (PlayerView {
                x: if old(self)@.x + 1 < old(self)@.cols {
                    old(self)@.x + 1
                } else {
                    old(self)@.x
                },
                ..old(self)@
            }),
    {
        if self.x < self.cols - 1 {
            self.x += 1;
        }
    }

    /// Puts a new shot into column `x`, row `y`. This fails, and changes
    /// nothing, if two shots are live already or the cell is not inside the grid
    /// and above the ship's row.
    pub fn place_shot(&mut self, x: usize, y: usize) -> (placed: bool)
        requires
            old(self)@.wf(),
        ensures
            final(self)@.wf(),
            placed == (old(self)@.shots.len() < MAX_SHOTS && x < old(self)@.cols && y < old(self)@.y),
            placed ==> final(self)@ == (PlayerView {
                shots: old(self)@.shots.push(ShotView::fired(x as nat, y as nat)),
                ..old(self)@
            }),
            !placed ==> final(self)@ == old(self)@,
    {
        if self.shots.len() < MAX_SHOTS && x < self.cols && y < self.y {
            self.shots.push(Shot::new(x, y));
            assert(self@.shots =~= old(self)@.shots.push(ShotView::fired(x as nat, y as nat)));
            true
        } else {
            false
        }
    }

    /// Fires a shot from the cell above the ship. This fails, and changes
    /// nothing, if two shots are live already.
    pub fn shoot(&mut self) -> (fired: bool)
        requires
            old(self)@.wf(),
        ensures
            final(self)@.wf(),
            fired == (old(self)@.shots.len() < MAX_SHOTS),
            fired ==> final(self)@.shots.len() == old(self)@.shots.len() + 1,
            !fired ==> final(self)@.shots.len() == old(self)@.shots.len(),
            fired ==> final(self)@ == (PlayerView {
                shots: old(self)@.shots.push(ShotView::fired(old(self)@.x, (old(self)@.y - 1) as nat)),
                ..old(self)@
            }),
            !fired ==> final(self)@ == old(self)@,
    {
        self.place_shot(self.x, self.y - 1)
    }

    /// Ages every live shot by `delta` and removes those whose lifetime has run
    /// out. The shots that stay keep their order.
    pub fn update(&mut self, delta: Duration)
        requires
            old(self)@.wf(),
        ensures
            final(self)@.wf(),
            final(self)@ == (PlayerView {
                shots: live_after(old(self)@.shots, duration_nanos(delta)),
                ..old(self)@
            }),
    {
        let ghost before = self@.shots;
        let ghost nanos = duration_nanos(delta);
        let mut kept: Vec<Shot> = Vec::new();
        let mut done: usize = 0;
        while self.shots.len() > 0
            invariant
                self.x == old(self).x,
                self.y == old(self).y,
                self.cols == old(self).cols,
                before == old(self)@.shots,
                nanos == duration_nanos(delta),
                old(self)@.wf(),
                done <= before.len(),
                shot_views(self.shots@) =~= before.skip(done as int),
                shot_views(kept@) =~= live_after(before.take(done as int), nanos),
                kept@.len() <= done,
                forall|i: int|
                    0 <= i < kept@.len() ==> (#[trigger] kept@[i])@.x < self.cols && kept@[i]@.y < self.y,
            decreases self.shots@.len(),
        {
            let ghost rest = self.shots@;
            let ghost kept_before = kept@;
            assert(shot_views(rest).len() == before.skip(done as int).len());
            assert(done < before.len());
            assert(shot_views(rest)[0] == before.skip(done as int)[0]);
            let mut shot: Shot = self.shots.remove(0);
            shot.update(delta);
            let dead: bool = shot.is_dead();
            if !dead {
                kept.push(shot);
            }
            proof {
                let total = before.take(done + 1);
                let head = before.take(done as int);
                assert(total =~= head.push(before[done as int]));
                assert(total.map_values(aging(nanos)) =~= head.map_values(aging(nanos)).push(
                    before[done as int].aged(nanos),
                ));
                head.map_values(aging(nanos)).lemma_filter_push(before[done as int].aged(nanos), alive());
                assert(shot@ == before[done as int].aged(nanos));
                if !dead {
                    assert(shot_views(kept@) =~= shot_views(kept_before).push(shot@));
                }
                assert(shot_views(self.shots@) =~= before.skip(done + 1)) by {
                    assert forall|i: int| 0 <= i < self.shots@.len() implies shot_views(self.shots@)[i]
                        == before.skip(done + 1)[i] by {
                        assert(self.shots@[i] == rest[i + 1]);
                        assert(shot_views(rest)[i + 1] == before.skip(done as int)[i + 1]);
                    }
                }
            }
            done += 1;
        }
        proof {
            assert(before.take(done as int) =~= before);
        }
        self.shots = kept;
    }

    /// Resolves the collisions between the live shots and the swarm. The shots
    /// are taken oldest first: one that shares its cell with an invader removes
    /// the first such invader and is used up. Returns whether anything was hit.
    pub fn detect_hits(&mut self, invaders: &mut Invaders) -> (hit: bool)
        requires
            old(self)@.wf(),
        ensures
            final(self)@ == (PlayerView {
                shots: resolved(old(self)@.shots, old(invaders)@.army).shots,
                ..old(self)@
            }),
            final(invaders)@ == (SwarmView {
                army: resolved(old(self)@.shots, old(invaders)@.army).army,
                ..old(invaders)@
            }),
            hit == (final(self)@.shots.len() < old(self)@.shots.len()),
            final(self)@.wf(),
            old(invaders)@.wf() ==> final(invaders)@.wf(),
    {
        let ghost before = self@.shots;
        let ghost army = invaders@.army;
        let mut kept: Vec<Shot> = Vec::new();
        let mut done: usize = 0;
        proof {
            assert(before.take(0) =~= Seq::empty());
            assert(shot_views(kept@) =~= Seq::empty());
        }
        while self.shots.len() > 0
            invariant
                self.x == old(self).x,
                self.y == old(self).y,
                self.cols == old(self).cols,
                before == old(self)@.shots,
                army == old(invaders)@.army,
                old(self)@.wf(),
                done <= before.len(),
                shot_views(self.shots@) =~= before.skip(done as int),
                resolved(before.take(done as int), army) == (Outcome {
                    shots: shot_views(kept@),
                    army: invaders@.army,
                }),
                invaders@ == (SwarmView { army: invaders@.army, ..old(invaders)@ }),
                old(invaders)@.wf() ==> invaders@.wf(),
                kept@.len() <= done,
                forall|i: int|
                    0 <= i < kept@.len() ==> (#[trigger] kept@[i])@.x < self.cols && kept@[i]@.y < self.y,
            decreases self.shots@.len(),
        {
            let ghost rest = self.shots@;
            let ghost kept_before = kept@;
            let ghost outcome = resolved(before.take(done as int), army);
            assert(shot_views(rest).len() == before.skip(done as int).len());
            assert(done < before.len());
            assert(shot_views(rest)[0] == before.skip(done as int)[0]);
            let shot: Shot = self.shots.remove(0);
            let killed: bool = invaders.kill_invader_at(shot.x(), shot.y());
            if !killed {
                kept.push(shot);
            }
            proof {
                let total = before.take(done + 1);
                assert(total.drop_last() =~= before.take(done as int));
                assert(total.last() == before[done as int]);
                assert(resolved(total, army) == resolve_one(outcome, before[done as int]));
                if !killed {
                    assert(shot_views(kept@) =~= shot_views(kept_before).push(shot@));
                }
                assert(shot_views(self.shots@) =~= before.skip(done + 1)) by {
                    assert forall|i: int| 0 <= i < self.shots@.len() implies shot_views(self.shots@)[i]
                        == before.skip(done + 1)[i] by {
                        assert(self.shots@[i] == rest[i + 1]);
                        assert(shot_views(rest)[i + 1] == before.skip(done as int)[i + 1]);
                    }
                }
            }
            done += 1;
        }
        proof {
            assert(before.take(done as int) =~= before);
        }
        let hit: bool = kept.len() < done;
        self.shots = kept;
        hit
    }
}

impl Drawable for Player {
    open spec fn fits(&self, frame: &Frame) -> bool {
        self@.wf() && self@.cols == frame.spec_cols() && self@.y < frame.spec_rows()
    }

    open spec fn painted(&self, x: int, y: int, under: Cell) -> Cell {
        self@.painted(x, y, under)
    }

    fn draw(&self, frame: &mut Frame) {
        frame.set(self.x, self.y, Cell::Player);
        let mut i: usize = 0;
        while i < self.shots.len()
            invariant
                i <= self.shots@.len(),
                self.fits(old(frame)),
                frame.wf(),
                frame.same_size(old(frame)),
                forall|x: int, y: int|
                    0 <= x < frame.spec_cols() && 0 <= y < frame.spec_rows() ==> #[trigger] frame.at(x, y) == (
                    if shot_at(self@.shots.take(i as int), x, y) {
                        Cell::Shot
                    } else if self@.x == x && self@.y == y {
                        Cell::Player
                    } else {
                        old(frame).at(x, y)
                    }),
            decreases self.shots@.len() - i,
        {
            let ghost shot = self@.shots[i as int];
            assert(shot.x < self@.cols && shot.y < self@.y);
            assert(self.shots@[i as int]@ == shot);
            frame.set(self.shots[i].x(), self.shots[i].y(), Cell::Shot);
            proof {
                let prefix = self@.shots.take(i as int);
                let longer = self@.shots.take(i + 1);
                assert(longer[i as int] == shot);
                assert forall|x: int, y: int|
                    0 <= x < frame.spec_cols() && 0 <= y < frame.spec_rows() implies #[trigger] frame.at(
                    x,
                    y,
                ) == (if shot_at(longer, x, y) {
                    Cell::Shot
                } else if self@.x == x && self@.y == y {
                    Cell::Player
                } else {
                    old(frame).at(x, y)
                }) by {
                    if shot_at(prefix, x, y) {
                        let k = choose|k: int| 0 <= k < prefix.len() && (#[trigger] prefix[k]).is_at(x, y);
                        assert(longer[k] == prefix[k]);
                    }
                    if shot_at(longer, x, y) {
                        let k = choose|k: int| 0 <= k < longer.len() && (#[trigger] longer[k]).is_at(x, y);
                        if k < i {
                            assert(prefix[k] == longer[k]);
                        }
                    }
                }
            }
            i += 1;
        }
        proof {
            assert(self@.shots.take(i as int) =~= self@.shots);
        }
    }
}

} // verus!
