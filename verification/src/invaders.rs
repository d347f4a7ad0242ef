//! The invader swarm: a set of positions that moves in lockstep, driven by one
//! shared timer and one shared direction.

use vstd::prelude::*;
use rusty_time::Timer;
use std::time::Duration;
use crate::frame::{Cell, Drawable, Frame};
use crate::timer::{duration_nanos, tick, timer_state, TimerState};

verus! {

/// Period of the swarm's move timer at the start of a session, in milliseconds.
pub const MOVE_START_MS: u64 = 2000;

/// By how much the period shrinks at every descent, in milliseconds.
pub const MOVE_DECREMENT_MS: u64 = 250;

/// The shortest period the move timer ever gets, in milliseconds.
pub const MOVE_FLOOR_MS: u64 = 250;

/// One invader: a position and nothing else.
#[derive(Clone, Copy, PartialEq, Eq, Structural, Debug)]
pub struct Invader {
    /// Column.
    pub x: usize,
    /// Row.
    pub y: usize,
}

/// The way the swarm is travelling.
#[derive(Clone, Copy, PartialEq, Eq, Structural, Debug)]
pub enum Direction {
    /// Towards column 0.
    Left,
    /// Towards the last column.
    Right,
}

impl Direction {
    /// The opposite direction.
    pub open spec fn flipped(self) -> Direction {
        match self {
            Direction::Left => Direction::Right,
            Direction::Right => Direction::Left,
        }
    }
}

/// The period that follows `duration` (in nanoseconds) after a descent: one
/// decrement shorter, but never below the floor.
pub open spec fn shortened(duration: nat) -> nat {
    let millis = duration / 1_000_000;
    if millis >= MOVE_DECREMENT_MS + MOVE_FLOOR_MS {
        ((millis - MOVE_DECREMENT_MS) * 1_000_000) as nat
    } else {
        MOVE_FLOOR_MS as nat * 1_000_000
    }
}

/// Every invader one row further down.
pub open spec fn descended(army: Seq<Invader>) -> Seq<Invader> {
    army.map_values(|i: Invader| Invader { x: i.x, y: (i.y + 1) as usize })
}

/// Every invader one column further in direction `dir`.
pub open spec fn shifted(army: Seq<Invader>, dir: Direction) -> Seq<Invader> {
    army.map_values(
        |i: Invader|
            match dir {
                Direction::Left => Invader { x: (i.x - 1) as usize, y: i.y },
                Direction::Right => Invader { x: (i.x + 1) as usize, y: i.y },
            },
    )
}

/// Whether an invader of `army` stands in column `x`, row `y`.
pub open spec fn occupied(army: Seq<Invader>, x: int, y: int) -> bool {
    exists|i: int| 0 <= i < army.len() && (#[trigger] army[i]).x == x && army[i].y == y
}

/// Whether `army[i]` is the first invader of `army` in column `x`, row `y`.
pub open spec fn is_first_at(army: Seq<Invader>, i: int, x: int, y: int) -> bool {
    &&& 0 <= i < army.len()
    &&& army[i].x == x
    &&& army[i].y == y
    &&& forall|j: int| 0 <= j < i ==> !((#[trigger] army[j]).x == x && army[j].y == y)
}

/// The index of the first invader of `army` in column `x`, row `y`.
pub open spec fn first_at(army: Seq<Invader>, x: int, y: int) -> int
    recommends
        occupied(army, x, y),
{
    choose|i: int| is_first_at(army, i, x, y)
}

/// `army` after a hit in column `x`, row `y`: the first invader that stands
/// there is gone; if none stands there, nothing has changed.
pub open spec fn struck(army: Seq<Invader>, x: int, y: int) -> Seq<Invader> {
    if occupied(army, x, y) {
        army.remove(first_at(army, x, y))
    } else {
        army
    }
}

/// Which of the two invader glyphs shows: the bright one while more than half
/// of the period is left, the dim one after that.
pub open spec fn pulse(timer: TimerState) -> Cell {
    if 2 * timer.remaining > timer.duration {
        Cell::InvaderBright
    } else {
        Cell::InvaderDim
    }
}

/// The swarm as plain values.
pub struct SwarmView {
    /// The invaders that are left, in the order in which they are kept.
    pub army: Seq<Invader>,
    /// State of the move timer.
    pub timer: TimerState,
    /// Direction of travel.
    pub direction: Direction,
    /// Columns of the grid.
    pub cols: nat,
    /// Rows of the grid. The player stands in the last one.
    pub rows: nat,
}

impl SwarmView {
    /// Every invader is inside the grid.
    pub open spec fn in_grid(self) -> bool {
        forall|i: int|
            0 <= i < self.army.len() ==> (#[trigger] self.army[i]).x < self.cols && self.army[i].y
                < self.rows
    }

    /// The period is a whole number of milliseconds between the floor and the
    /// starting period.
    pub open spec fn period_ok(self) -> bool {
        &&& self.timer.duration % 1_000_000 == 0
        &&& MOVE_FLOOR_MS * 1_000_000 <= self.timer.duration <= MOVE_START_MS * 1_000_000
    }

    /// The invariant of a swarm.
    pub open spec fn wf(self) -> bool {
        &&& 1 <= self.cols <= usize::MAX
        &&& 1 <= self.rows <= usize::MAX
        &&& self.in_grid()
        &&& self.period_ok()
    }

    /// Whether the swarm has an invader in the boundary column that lies in its
    /// direction of travel. An empty swarm is never at an edge.
    pub open spec fn at_edge(self) -> bool {
        match self.direction {
            Direction::Left => exists|i: int| 0 <= i < self.army.len() && (#[trigger] self.army[i]).x == 0,
            Direction::Right => exists|i: int|
                0 <= i < self.army.len() && (#[trigger] self.army[i]).x + 1 == self.cols,
        }
    }

    /// What a cell shows once the swarm has been drawn over a cell that showed
    /// `under`: the current invader glyph where an invader is, and elsewhere
    /// what was there.
    pub open spec fn painted(self, x: int, y: int, under: Cell) -> Cell {
        if occupied(self.army, x, y) {
            pulse(self.timer)
        } else {
            under
        }
    }

    /// No invader is left.
    pub open spec fn all_killed(self) -> bool {
        self.army.len() == 0
    }

    /// Some invader stands in the player's row (the last one) or below.
    pub open spec fn reached_bottom(self) -> bool {
        exists|i: int| 0 <= i < self.army.len() && (#[trigger] self.army[i]).y + 1 >= self.rows
    }

    /// The swarm after one step, its timer apart. At an edge the swarm turns
    /// round and goes down one row; elsewhere it goes one column sideways. An
    /// empty swarm stays as it is.
    pub open spec fn moved(self) -> SwarmView {
        if self.at_edge() {
            SwarmView { army: descended(self.army), direction: self.direction.flipped(), ..self }
        } else {
            SwarmView { army: shifted(self.army, self.direction), ..self }
        }
    }

    /// The swarm after one step. On a descent a new timer with a shorter period
    /// starts; otherwise the timer starts over with the same period.
    pub open spec fn stepped(self) -> SwarmView {
        let timer = if self.at_edge() {
            TimerState::fresh(shortened(self.timer.duration))
        } else {
            self.timer.restarted()
        };
        SwarmView { timer, ..self.moved() }
    }

    /// Whether the move timer fires when `delta` nanoseconds pass.
    pub open spec fn due(self, delta: nat) -> bool {
        self.timer.ticked(delta).finished
    }

    /// The swarm after `delta` nanoseconds: stepped if the timer fires, and
    /// otherwise unchanged but for the time that has passed.
    pub open spec fn advanced(self, delta: nat) -> SwarmView {
        let waited = SwarmView { timer: self.timer.ticked(delta), ..self };
        if self.due(delta) {
            waited.stepped()
        } else {
            waited
        }
    }
}

/// A step of a swarm that is not at the edge in its direction of travel moves
/// every invader by exactly one column in that direction and leaves rows,
/// direction and period as they were.
pub proof fn lemma_side_step(v: SwarmView)
    requires
        v.wf(),
        !v.at_edge(),
    ensures
        v.stepped().wf(),
        v.stepped().army.len() == v.army.len(),
        forall|i: int|
            0 <= i < v.army.len() ==> (#[trigger] v.stepped().army[i]).y == v.army[i].y
                && v.stepped().army[i].x == (match v.direction {
                Direction::Left => v.army[i].x - 1,
                Direction::Right => v.army[i].x + 1,
            }),
        v.stepped().direction == v.direction,
        v.stepped().timer.duration == v.timer.duration,
{
    assert forall|i: int| 0 <= i < v.army.len() implies (#[trigger] v.stepped().army[i]).y == v.army[i].y
        && v.stepped().army[i].x == (match v.direction {
        Direction::Left => v.army[i].x - 1,
        Direction::Right => v.army[i].x + 1,
    }) && v.stepped().army[i].x < v.cols by {
        assert(v.army[i].x < v.cols);
        assert(v.direction == Direction::Left ==> v.army[i].x != 0);
        assert(v.direction == Direction::Right ==> v.army[i].x + 1 != v.cols);
    }
}

/// A step of a swarm that is at the edge in its direction of travel moves every
/// invader down by exactly one row, leaves the columns as they were, turns the
/// swarm round, and shortens the period: strictly while it is above the floor,
/// and never below the floor.
pub proof fn lemma_descent_step(v: SwarmView)
    requires
        v.wf(),
        v.at_edge(),
        !v.reached_bottom(),
    ensures
        v.stepped().wf(),
        v.stepped().army.len() == v.army.len(),
        forall|i: int|
            0 <= i < v.army.len() ==> (#[trigger] v.stepped().army[i]).x == v.army[i].x
                && v.stepped().army[i].y == v.army[i].y + 1,
        v.stepped().direction == v.direction.flipped(),
        v.stepped().direction != v.direction,
        v.stepped().timer.duration <= v.timer.duration,
        v.stepped().timer.duration >= MOVE_FLOOR_MS * 1_000_000,
        v.timer.duration > MOVE_FLOOR_MS * 1_000_000 ==> v.stepped().timer.duration < v.timer.duration,
{
    assert forall|i: int| 0 <= i < v.army.len() implies (#[trigger] v.stepped().army[i]).x == v.army[i].x
        && v.stepped().army[i].y == v.army[i].y + 1 && v.stepped().army[i].y < v.rows by {
        assert(v.army[i].y + 1 < v.rows);
    }
}

/// Whatever time passes, the period of the move timer never grows, and the
/// swarm turns round only when it was at the edge in its direction of travel.
pub proof fn lemma_advance_keeps_order(v: SwarmView, delta: nat)
    requires
        v.wf(),
    ensures
        v.advanced(delta).timer.duration <= v.timer.duration,
        v.advanced(delta).direction != v.direction ==> v.at_edge() && v.due(delta),
{
}

/// The formation in which a session starts on a grid of `cols` columns: every
/// second column from 2 on, short of the last two, and in each the rows 2, 4, 6
/// and 8, column by column.
pub open spec fn formation(cols: nat) -> Seq<Invader> {
    Seq::new(
        if cols >= 5 { (4 * ((cols - 3) / 2)) as nat } else { 0 },
        |k: int| Invader { x: (2 + 2 * (k / 4)) as usize, y: (2 + 2 * (k % 4)) as usize },
    )
}

/// Which cells the starting formation fills: the cells in an even column from 2
/// on, short of the last two columns, and in an even row from 2 to 8. No cell
/// holds two invaders.
pub proof fn lemma_formation_cells(cols: nat)
    requires
        cols <= usize::MAX,
    ensures
        forall|x: int, y: int|
            #[trigger] occupied(formation(cols), x, y) <==> (1 < x < cols - 2 && 0 < y < 9 && x % 2 == 0 && y
                % 2 == 0),
        forall|j: int, k: int|
            0 <= j < k < formation(cols).len() ==> #[trigger] formation(cols)[j] != #[trigger] formation(
                cols,
            )[k],
{
    let army = formation(cols);
    assert forall|x: int, y: int|
        #[trigger] occupied(army, x, y) <==> (1 < x < cols - 2 && 0 < y < 9 && x % 2 == 0 && y % 2 == 0) by {
        if 1 < x < cols - 2 && 0 < y < 9 && x % 2 == 0 && y % 2 == 0 {
            let k = 4 * ((x - 2) / 2) + (y - 2) / 2;
            assert(0 <= k < army.len());
            assert(army[k].x == x && army[k].y == y);
        }
        if occupied(army, x, y) {
            let k = choose|k: int| 0 <= k < army.len() && (#[trigger] army[k]).x == x && army[k].y == y;
            assert(x == 2 + 2 * (k / 4) && y == 2 + 2 * (k % 4));
        }
    }
    assert forall|j: int, k: int| 0 <= j < k < army.len() implies #[trigger] army[j] != #[trigger] army[k] by {
        assert(army[j].x == 2 + 2 * (j / 4) && army[j].y == 2 + 2 * (j % 4));
        assert(army[k].x == 2 + 2 * (k / 4) && army[k].y == 2 + 2 * (k % 4));
    }
}

/// The invader swarm.
pub struct Invaders {
    army: Vec<Invader>,
    move_timer: Timer,
    direction: Direction,
    cols: usize,
    rows: usize,
}

impl View for Invaders {
    type V = SwarmView;

    closed spec fn view(&self) -> SwarmView {
        SwarmView {
            army: self.army@,
            timer: timer_state(self.move_timer),
            direction: self.direction,
            cols: self.cols as nat,
            rows: self.rows as nat,
        }
    }
}

impl Invaders {
    /// A swarm of `army` at the start of a session on a grid of `cols` by
    /// `rows`: travelling right, with a full starting period ahead.
    pub open spec fn start_view(cols: nat, rows: nat, army: Seq<Invader>) -> SwarmView {
        SwarmView {
            army,
            timer: TimerState::fresh(MOVE_START_MS as nat * 1_000_000),
            direction: Direction::Right,
            cols,
            rows,
        }
    }

    /// The swarm at the start of a session on the default grid.
    pub open spec fn new_view() -> SwarmView {
        Invaders::start_view(
            crate::NUM_COLS as nat,
            crate::NUM_ROWS as nat,
            formation(crate::NUM_COLS as nat),
        )
    }

    /// On the default grid no invader of the starting formation is in the
    /// player's row.
    pub proof fn lemma_new_view()
        ensures
            Invaders::new_view().wf(),
            !Invaders::new_view().reached_bottom(),
            !Invaders::new_view().all_killed(),
    {
        let v = Invaders::new_view();
        assert forall|i: int| 0 <= i < v.army.len() implies (#[trigger] v.army[i]).x < v.cols && v.army[i].y
            < 9 by {}
    }

    /// The swarm at the start of a session on the default grid: the starting
    /// formation, travelling right, with a full starting period ahead.
    pub fn new() -> (swarm: Invaders)
        ensures
            swarm@.wf(),
            swarm@ == Invaders::new_view(),
    {
        let mut army: Vec<Invader> = Vec::new();
        let mut x: usize = 2;
        while x < crate::NUM_COLS - 2
            invariant
                2 <= x <= crate::NUM_COLS - 1,
                x % 2 == 0,
                army@.len() == 4 * ((x - 2) / 2),
                forall|k: int|
                    0 <= k < army@.len() ==> #[trigger] army@[k] == (Invader {
                        x: (2 + 2 * (k / 4)) as usize,
                        y: (2 + 2 * (k % 4)) as usize,
                    }),
            decreases crate::NUM_COLS - x,
        {
            let mut y: usize = 2;
            while y < 9
                invariant
                    2 <= x < crate::NUM_COLS - 2,
                    x % 2 == 0,
                    2 <= y <= 10,
                    y % 2 == 0,
                    army@.len() == 4 * ((x - 2) / 2) + (y - 2) / 2,
                    forall|k: int|
                        0 <= k < army@.len() ==> #[trigger] army@[k] == (Invader {
                            x: (2 + 2 * (k / 4)) as usize,
                            y: (2 + 2 * (k % 4)) as usize,
                        }),
                decreases 10 - y,
            {
                army.push(Invader { x, y });
                y += 2;
            }
            x += 2;
        }
        let swarm = Invaders {
            army,
            move_timer: Timer::new(Duration::from_millis(MOVE_START_MS)),
            direction: Direction::Right,
            cols: crate::NUM_COLS,
            rows: crate::NUM_ROWS,
        };
        proof {
            assert(swarm@.army =~= formation(crate::NUM_COLS as nat));
        }
        swarm
    }

    /// A swarm of the given invaders on a grid of `cols` by `rows`, travelling
    /// right, with a full starting period ahead. `None` if the grid has no cell
    /// or an invader lies outside it.
    pub fn with_army(cols: usize, rows: usize, army: Vec<Invader>) -> (swarm: Option<Invaders>)
        ensures
            swarm is Some <==> cols >= 1 && rows >= 1 && forall|i: int|
                0 <= i < army@.len() ==> (#[trigger] army@[i]).x < cols && army@[i].y < rows,
            swarm is Some ==> swarm->0@.wf() && swarm->0@ == Invaders::start_view(
                cols as nat,
                rows as nat,
                army@,
            ),
    {
        if cols < 1 || rows < 1 {
            return None;
        }
        let mut i: usize = 0;
        while i < army.len()
            invariant
                i <= army@.len(),
                forall|k: int| 0 <= k < i ==> (#[trigger] army@[k]).x < cols && army@[k].y < rows,
            decreases army@.len() - i,
        {
            if army[i].x >= cols || army[i].y >= rows {
                return None;
            }
            i += 1;
        }
        Some(
            Invaders {
                army,
                move_timer: Timer::new(Duration::from_millis(MOVE_START_MS)),
                direction: Direction::Right,
                cols,
                rows,
            },
        )
    }

    /// The invaders that are left.
    pub fn army(&self) -> (army: &Vec<Invader>)
        ensures
            army@ == self@.army,
    {
        &self.army
    }

    /// Columns of the grid.
    pub fn cols(&self) -> (cols: usize)
        ensures
            cols == self@.cols,
    {
        self.cols
    }

    /// Rows of the grid.
    pub fn rows(&self) -> (rows: usize)
        ensures
            rows == self@.rows,
    {
        self.rows
    }

    /// The direction of travel.
    pub fn direction(&self) -> (dir: Direction)
        ensures
            dir == self@.direction,
    {
        self.direction
    }

    /// The current period of the move timer, in milliseconds.
    pub fn period_millis(&self) -> (millis: u64)
        requires
            self@.wf(),
        ensures
            millis == self@.timer.duration / 1_000_000,
    {
        let nanos: u128 = self.move_timer.duration().as_nanos();
        (nanos / 1_000_000) as u64
    }

    /// Whether no invader is left: the session is won.
    pub fn all_killed(&self) -> (won: bool)
        ensures
            won == self@.all_killed(),
    {
        self.army.len() == 0
    }

    /// Whether some invader has reached the player's row: the session is lost.
    pub fn reached_bottom(&self) -> (lost: bool)
        requires
            self@.wf(),
        ensures
            lost == self@.reached_bottom(),
    {
        let mut i: usize = 0;
        while i < self.army.len()
            invariant
                self@.wf(),
                i <= self.army@.len(),
                forall|k: int| 0 <= k < i ==> (#[trigger] self.army@[k]).y + 1 < self.rows,
            decreases self.army@.len() - i,
        {
            if self.army[i].y >= self.rows - 1 {
                assert(self@.army[i as int].y + 1 >= self.rows);
                return true;
            }
            i += 1;
        }
        false
    }

    /// The swarm's extreme column in its direction of travel: the least column
    /// when it travels left, the greatest when it travels right, and `None` for
    /// an empty swarm.
    pub fn extreme_column(&self) -> (col: Option<usize>)
        ensures
            col is None <==> self@.army.len() == 0,
            col is Some ==> exists|i: int| 0 <= i < self@.army.len() && (#[trigger] self@.army[i]).x == col->0,
            col is Some && self@.direction == Direction::Left ==> forall|i: int|
                0 <= i < self@.army.len() ==> col->0 <= (#[trigger] self@.army[i]).x,
            col is Some && self@.direction == Direction::Right ==> forall|i: int|
                0 <= i < self@.army.len() ==> (#[trigger] self@.army[i]).x <= col->0,
    {
        if self.army.len() == 0 {
            return None;
        }
        let mut best: usize = self.army[0].x;
        let mut i: usize = 1;
        while i < self.army.len()
            invariant
                1 <= i <= self.army@.len(),
                exists|k: int| 0 <= k < i && (#[trigger] self.army@[k]).x == best,
                self.direction == Direction::Left ==> forall|k: int|
                    0 <= k < i ==> best <= (#[trigger] self.army@[k]).x,
                self.direction == Direction::Right ==> forall|k: int|
                    0 <= k < i ==> (#[trigger] self.army@[k]).x <= best,
            decreases self.army@.len() - i,
        {
            let x: usize = self.army[i].x;
            let better: bool = match self.direction {
                Direction::Left => x < best,
                Direction::Right => x > best,
            };
            if better {
                best = x;
            }
            i += 1;
        }
        Some(best)
    }

    /// Whether the swarm's extreme column in its direction of travel is the
    /// grid's boundary column on that side.
    pub fn at_edge(&self) -> (edge: bool)
        requires
            self@.wf(),
        ensures
            edge == self@.at_edge(),
    {
        match self.extreme_column() {
            None => false,
            Some(col) => match self.direction {
                Direction::Left => col == 0,
                Direction::Right => col == self.cols - 1,
            },
        }
    }

    /// Removes the first invader that stands in column `x`, row `y`, and says
    /// whether there was one.
    pub fn kill_invader_at(&mut self, x: usize, y: usize) -> (killed: bool)
        ensures
            killed == occupied(old(self)@.army, x as int, y as int),
            final(self)@ == (SwarmView {
                army: struck(old(self)@.army, x as int, y as int),
                ..old(self)@
            }),
            old(self)@.wf() ==> final(self)@.wf(),
    {
        let mut i: usize = 0;
        while i < self.army.len()
            invariant
                i <= self.army@.len(),
                *self == *old(self),
                forall|j: int| 0 <= j < i ==> !((#[trigger] self.army@[j]).x == x && self.army@[j].y == y),
            decreases self.army@.len() - i,
        {
            if self.army[i].x == x && self.army[i].y == y {
                proof {
                    assert(is_first_at(self.army@, i as int, x as int, y as int));
                    let c = first_at(self.army@, x as int, y as int);
                    assert(is_first_at(self.army@, c, x as int, y as int));
                    assert(c == i) by {
                        if c < i {
                            assert(!(self.army@[c].x == x && self.army@[c].y == y));
                        }
                        if i < c {
                            assert(!(self.army@[i as int].x == x && self.army@[i as int].y == y));
                        }
                    }
                }
                self.army.remove(i);
                return true;
            }
            i += 1;
        }
        false
    }

    /// Moves every invader one row down.
    fn descend(&mut self)
        requires
            old(self)@.wf(),
            !old(self)@.reached_bottom(),
        ensures
            final(self)@ == (SwarmView { army: descended(old(self)@.army), ..old(self)@ }),
    {
        let mut i: usize = 0;
        while i < self.army.len()
            invariant
                i <= self.army@.len(),
                self.army@.len() == old(self).army@.len(),
                self.move_timer == old(self).move_timer,
                self.direction == old(self).direction,
                self.cols == old(self).cols,
                self.rows == old(self).rows,
                old(self)@.wf(),
                !old(self)@.reached_bottom(),
                forall|k: int| 0 <= k < i ==> #[trigger] self.army@[k] == descended(old(self).army@)[k],
                forall|k: int| i <= k < self.army@.len() ==> #[trigger] self.army@[k] == old(self).army@[k],
            decreases self.army@.len() - i,
        {
            let invader: Invader = self.army[i];
            assert(old(self)@.army[i as int].y + 1 < self.rows);
            self.army[i] = Invader { x: invader.x, y: invader.y + 1 };
            i += 1;
        }
        proof {
            assert(self.army@ =~= descended(old(self).army@));
        }
    }

    /// Moves every invader one column in the direction of travel.
    fn shift(&mut self)
        requires
            old(self)@.wf(),
            !old(self)@.at_edge(),
        ensures
            final(self)@ == (SwarmView {
                army: shifted(old(self)@.army, old(self)@.direction),
                ..old(self)@
            }),
    {
        let mut i: usize = 0;
        while i < self.army.len()
            invariant
                i <= self.army@.len(),
                self.army@.len() == old(self).army@.len(),
                self.move_timer == old(self).move_timer,
                self.direction == old(self).direction,
                self.cols == old(self).cols,
                self.rows == old(self).rows,
                old(self)@.wf(),
                !old(self)@.at_edge(),
                forall|k: int|
                    0 <= k < i ==> #[trigger] self.army@[k] == shifted(
                        old(self).army@,
                        old(self).direction,
                    )[k],
                forall|k: int| i <= k < self.army@.len() ==> #[trigger] self.army@[k] == old(self).army@[k],
            decreases self.army@.len() - i,
        {
            let invader: Invader = self.army[i];
            assert(old(self)@.army[i as int].x < self.cols);
            match self.direction {
                Direction::Left => {
                    assert(old(self)@.army[i as int].x != 0);
                    self.army[i] = Invader { x: invader.x - 1, y: invader.y };
                },
                Direction::Right => {
                    assert(old(self)@.army[i as int].x + 1 != self.cols);
                    self.army[i] = Invader { x: invader.x + 1, y: invader.y };
                },
            }
            i += 1;
        }
        proof {
            assert(self.army@ =~= shifted(old(self).army@, old(self).direction));
        }
    }

    /// Advances the swarm by `delta`. The move timer is ticked; if it fires, the
    /// swarm takes one step and the timer starts again. Returns whether a step
    /// was taken.
    ///
    /// A swarm that has reached the player's row has ended the session and is
    /// not advanced any further.
    pub fn update(&mut self, delta: Duration) -> (stepped: bool)
        requires
            old(self)@.wf(),
            !old(self)@.reached_bottom(),
        ensures
            stepped == old(self)@.due(duration_nanos(delta)),
            final(self)@ == old(self)@.advanced(duration_nanos(delta)),
            final(self)@.wf(),
            final(self)@.timer.duration <= old(self)@.timer.duration,
    {
        tick(&mut self.move_timer, delta);
        if self.move_timer.finished() {
            if self.at_edge() {
                let nanos: u128 = self.move_timer.duration().as_nanos();
                let millis: u64 = (nanos / 1_000_000) as u64;
                let next: u64 = if millis >= MOVE_DECREMENT_MS + MOVE_FLOOR_MS {
                    millis - MOVE_DECREMENT_MS
                } else {
                    MOVE_FLOOR_MS
                };
                self.move_timer = Timer::new(Duration::from_millis(next));
                self.direction = match self.direction {
                    Direction::Left => Direction::Right,
                    Direction::Right => Direction::Left,
                };
                self.descend();
            } else {
                self.move_timer.reset();
                self.shift();
            }
            true
        } else {
            false
        }
    }
}

impl Drawable for Invaders {
    open spec fn fits(&self, frame: &Frame) -> bool {
        self@.wf() && self@.cols == frame.spec_cols() && self@.rows == frame.spec_rows()
    }

    open spec fn painted(&self, x: int, y: int, under: Cell) -> Cell {
        self@.painted(x, y, under)
    }

    fn draw(&self, frame: &mut Frame) {
        let left: u128 = self.move_timer.remaining().as_nanos();
        let whole: u128 = self.move_timer.duration().as_nanos();
        let cell: Cell = if left > whole || left > whole - left {
            Cell::InvaderBright
        } else {
            Cell::InvaderDim
        };
        let mut i: usize = 0;
        while i < self.army.len()
            invariant
                i <= self.army@.len(),
                self.fits(old(frame)),
                cell == pulse(self@.timer),
                frame.wf(),
                frame.same_size(old(frame)),
                forall|x: int, y: int|
                    0 <= x < frame.spec_cols() && 0 <= y < frame.spec_rows() ==> #[trigger] frame.at(x, y) == (
                    if occupied(self.army@.take(i as int), x, y) {
                        cell
                    } else {
                        old(frame).at(x, y)
                    }),
            decreases self.army@.len() - i,
        {
            let invader: Invader = self.army[i];
            assert(self@.army[i as int].x < self@.cols);
            let ghost before = *frame;
            frame.set(invader.x, invader.y, cell);
            proof {
                let prefix = self.army@.take(i as int);
                let longer = self.army@.take(i + 1);
                assert(longer[i as int] == invader);
                assert forall|x: int, y: int|
                    0 <= x < frame.spec_cols() && 0 <= y < frame.spec_rows() implies #[trigger] frame.at(
                    x,
                    y,
                ) == (if occupied(longer, x, y) {
                    cell
                } else {
                    old(frame).at(x, y)
                }) by {
                    if occupied(prefix, x, y) {
                        let k = choose|k: int| 0 <= k < prefix.len() && (#[trigger] prefix[k]).x == x && prefix[k].y == y;
                        assert(longer[k] == prefix[k]);
                    }
                    if occupied(longer, x, y) {
                        let k = choose|k: int| 0 <= k < longer.len() && (#[trigger] longer[k]).x == x && longer[k].y == y;
                        if k < i {
                            assert(prefix[k] == longer[k]);
                        }
                    }
                }
            }
            i += 1;
        }
        proof {
            assert(self.army@.take(i as int) =~= self.army@);
        }
    }
}

} // verus!
