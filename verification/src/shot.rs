//! A single projectile: a cell of the grid and the timer that limits its life.

use vstd::prelude::*;
use rusty_time::Timer;
use std::time::Duration;
use crate::frame::{Cell, Drawable, Frame};
use crate::timer::{duration_nanos, tick, timer_state, TimerState};

verus! {

/// How long a shot lives, in milliseconds.
pub const SHOT_LIFETIME_MS: u64 = 50;

/// A shot as plain values: where it is and what its timer holds.
pub struct ShotView {
    /// Column.
    pub x: nat,
    /// Row.
    pub y: nat,
    /// State of the lifetime timer.
    pub timer: TimerState,
}

impl ShotView {
    /// A shot just fired at column `x`, row `y`.
    pub open spec fn fired(x: nat, y: nat) -> ShotView {
        ShotView { x, y, timer: TimerState::fresh(SHOT_LIFETIME_MS as nat * 1_000_000) }
    }

    /// The shot after `delta` nanoseconds: it stays where it is and its timer
    /// has advanced.
    pub open spec fn aged(self, delta: nat) -> ShotView {
        ShotView { x: self.x, y: self.y, timer: self.timer.ticked(delta) }
    }

    /// A shot is dead once its lifetime has run out.
    pub open spec fn dead(self) -> bool {
        self.timer.finished
    }

    /// Whether the shot is in column `x`, row `y`.
    pub open spec fn is_at(self, x: int, y: int) -> bool {
        self.x == x && self.y == y
    }
}

/// A live projectile.
pub struct Shot {
    x: usize,
    y: usize,
    timer: Timer,
}

impl View for Shot {
    type V = ShotView;

    closed spec fn view(&self) -> ShotView {
        ShotView { x: self.x as nat, y: self.y as nat, timer: timer_state(self.timer) }
    }
}

impl Shot {
    /// A new shot at column `x`, row `y`, with its whole lifetime ahead.
    pub fn new(x: usize, y: usize) -> (shot: Shot)
        ensures
            shot@ == ShotView::fired(x as nat, y as nat),
    {
        Shot { x, y, timer: Timer::new(Duration::from_millis(SHOT_LIFETIME_MS)) }
    }

    /// The shot's column.
    pub fn x(&self) -> (x: usize)
        ensures
            x == self@.x,
    {
        self.x
    }

    /// The shot's row.
    pub fn y(&self) -> (y: usize)
        ensures
            y == self@.y,
    {
        self.y
    }

    /// Ages the shot by `delta`.
    pub fn update(&mut self, delta: Duration)
        ensures
            final(self)@ == old(self)@.aged(duration_nanos(delta)),
    {
        tick(&mut self.timer, delta);
    }

    /// Whether the shot's lifetime has run out.
    pub fn is_dead(&self) -> (dead: bool)
        ensures
            dead == self@.dead(),
    {
        self.timer.finished()
    }
}

impl Drawable for Shot {
    open spec fn fits(&self, frame: &Frame) -> bool {
        self@.x < frame.spec_cols() && self@.y < frame.spec_rows()
    }

    open spec fn painted(&self, x: int, y: int, under: Cell) -> Cell {
        if self@.is_at(x, y) {
            Cell::Shot
        } else {
            under
        }
    }

    fn draw(&self, frame: &mut Frame) {
        frame.set(self.x, self.y, Cell::Shot);
    }
}

} // verus!
