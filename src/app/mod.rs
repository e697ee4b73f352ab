pub mod model;
pub mod ui;

use vstd::prelude::*;
use crate::app::model::{Direction, Model, generation_changes, cursor_changes, offset_cursor, toggled, with_cell};
use crate::app::ui::ChangeSet;
use crate::model::{in_grid, next_generation, Cell};

verus! {

/// The interval between two generations when the simulation starts, in
/// milliseconds.
pub const DEFAULT_STEP_MS: u64 = 50;

/// How much one speed key changes the interval, in milliseconds.
pub const STEP_CHANGE_MS: u64 = 5;

/// What a key asks of the simulation.
#[derive(PartialEq, Eq, Structural, Clone, Copy, Debug)]
pub enum Action {
    TogglePause,
    /// Lengthens the interval between generations by `STEP_CHANGE_MS`.
    SpeedUp,
    /// Shortens the interval between generations by `STEP_CHANGE_MS`, unless
    /// that would bring it to zero.
    SpeedDown,
    ResetSpeed,
    MoveCursor(Direction),
    ToggleCell,
    Quit,
}

/// What the caller has to do after an input.
pub enum Response {
    /// Nothing to draw.
    Idle,
    /// Draw these changes.
    Render(ChangeSet),
    /// Stop the loop.
    Quit,
}

/// The interval after a change of `dt` milliseconds: a change that would
/// bring it to zero or below is refused, as is one past the largest value.
pub open spec fn adjusted_step(step: int, dt: int) -> int {
    if dt > 0 {
        if step + dt <= u64::MAX { step + dt } else { step }
    } else if -dt < step {
        step + dt
    } else {
        step
    }
}

/// Whether a generation is due at time `now`, all times in milliseconds.
pub open spec fn step_due(paused: bool, step: int, last: int, now: int) -> bool {
    !paused && now - last >= step
}

/// The pause flag and the pace of the simulation.
pub struct Pacing {
    paused: bool,
    step_ms: u64,
    last_step_ms: u64,
}

impl Pacing {
    pub closed spec fn is_paused(&self) -> bool {
        self.paused
    }

    /// The interval between generations, in milliseconds.
    pub closed spec fn step(&self) -> int {
        self.step_ms as int
    }

    /// When the last generation was computed.
    pub closed spec fn last(&self) -> int {
        self.last_step_ms as int
    }

    /// Running, with the default interval, the last step taken at `now`.
    pub fn new(now: u64) -> (r: Pacing)
        ensures
            !r.is_paused(),
            r.step() == DEFAULT_STEP_MS,
            r.last() == now,
    {
        Pacing { paused: false, step_ms: DEFAULT_STEP_MS, last_step_ms: now }
    }

    pub fn paused(&self) -> (r: bool)
        ensures
            r == self.is_paused(),
    {
        self.paused
    }

    pub fn step_time(&self) -> (r: u64)
        ensures
            r == self.step(),
    {
        self.step_ms
    }

    pub fn set_paused(&mut self, paused: bool)
        ensures
            final(self).is_paused() == paused,
            final(self).step() == old(self).step(),
            final(self).last() == old(self).last(),
    {
        self.paused = paused;
    }

    pub fn toggle_pause(&mut self)
        ensures
            final(self).is_paused() == !old(self).is_paused(),
            final(self).step() == old(self).step(),
            final(self).last() == old(self).last(),
    {
        self.paused = !self.paused;
    }

    /// Whether a generation is due at `now`: not paused, and at least one
    /// interval since the last one. A clock earlier than the last step means
    /// no time has passed.
    pub fn should_step(&self, now: u64) -> (r: bool)
        ensures
            r == step_due(self.is_paused(), self.step(), self.last(), now as int),
    {
        !self.paused && now >= self.last_step_ms && now - self.last_step_ms >= self.step_ms
    }

    /// Notes that a generation was computed at `now`.
    pub fn record_step(&mut self, now: u64)
        ensures
            final(self).last() == now,
            final(self).is_paused() == old(self).is_paused(),
            final(self).step() == old(self).step(),
    {
        self.last_step_ms = now;
    }

    /// Lengthens the interval by `dt` milliseconds, or shortens it by `-dt`
    /// where `dt` is negative; it never reaches zero.
    pub fn change_step_time(&mut self, dt: i64)
        ensures
            final(self).step() == adjusted_step(old(self).step(), dt as int),
            final(self).is_paused() == old(self).is_paused(),
            final(self).last() == old(self).last(),
    {
        if dt > 0 {
            let up = dt as u64;
            if up <= u64::MAX - self.step_ms {
                self.step_ms = self.step_ms + up;
            }
        } else {
            let down = (0 - (dt as i128)) as u64;
            if down < self.step_ms {
                self.step_ms = self.step_ms - down;
            }
        }
    }

    /// Restores the default interval.
    pub fn reset_step_time(&mut self)
        ensures
            final(self).step() == DEFAULT_STEP_MS,
            final(self).is_paused() == old(self).is_paused(),
            final(self).last() == old(self).last(),
    {
        self.step_ms = DEFAULT_STEP_MS;
    }
}

/// The model and the pace at which it evolves, driven by inputs and by time.
pub struct Controller {
    model: Model,
    pacing: Pacing,
}

impl Controller {
    pub closed spec fn state(&self) -> Model {
        self.model
    }

    pub closed spec fn pace(&self) -> Pacing {
        self.pacing
    }

    pub open spec fn wf(&self) -> bool {
        self.state().wf()
    }

    /// A `w` by `h` grid of dead cells, running at the default pace.
    pub fn new(w: usize, h: usize, now: u64) -> (r: Controller)
        requires
            w >= 3,
            h >= 3,
        ensures
            r.wf(),
            r.state().width() == w,
            r.state().height() == h,
            forall|x: int, y: int| in_grid(r.state().cells(), x, y) ==> #[trigger] r.state().cells()[y][x] == Cell::Dead,
            r.state().cursor() == (w as int / 2, h as int / 2),
            !r.pace().is_paused(),
            r.pace().step() == DEFAULT_STEP_MS,
            r.pace().last() == now,
    {
        Controller { model: Model::new(w, h), pacing: Pacing::new(now) }
    }

    pub fn model(&self) -> (r: &Model)
        ensures
            *r == self.state(),
    {
        &self.model
    }

    pub fn pacing(&self) -> (r: &Pacing)
        ensures
            *r == self.pace(),
    {
        &self.pacing
    }

    /// Applies a key's action. Moving the cursor and toggling a cell pause the
    /// simulation and return what to redraw.
    pub fn handle_action(&mut self, a: Action) -> (r: Response)
        requires
            old(self).wf(),
        ensures
            final(self).wf(),
            final(self).pace().last() == old(self).pace().last(),
            match a {
                Action::TogglePause => {
                    &&& r is Idle
                    &&& final(self).state() == old(self).state()
                    &&& final(self).pace().is_paused() == !old(self).pace().is_paused()
                    &&& final(self).pace().step() == old(self).pace().step()
                },
                Action::SpeedUp => {
                    &&& r is Idle
                    &&& final(self).state() == old(self).state()
                    &&& final(self).pace().is_paused() == old(self).pace().is_paused()
                    &&& final(self).pace().step() == adjusted_step(old(self).pace().step(), STEP_CHANGE_MS as int)
                },
                Action::SpeedDown => {
                    &&& r is Idle
                    &&& final(self).state() == old(self).state()
                    &&& final(self).pace().is_paused() == old(self).pace().is_paused()
                    &&& final(self).pace().step() == adjusted_step(old(self).pace().step(), -(STEP_CHANGE_MS as int))
                },
                Action::ResetSpeed => {
                    &&& r is Idle
                    &&& final(self).state() == old(self).state()
                    &&& final(self).pace().is_paused() == old(self).pace().is_paused()
                    &&& final(self).pace().step() == DEFAULT_STEP_MS
                },
                Action::MoveCursor(d) => {
                    &&& final(self).pace().is_paused()
                    &&& final(self).pace().step() == old(self).pace().step()
                    &&& final(self).state().cells() == old(self).state().cells()
                    &&& final(self).state().cursor() == offset_cursor(old(self).state().cursor(), d,
                        old(self).state().width(), old(self).state().height())
                    &&& r matches Response::Render(cs) && cs.wf()
                        && cs@ == cursor_changes(old(self).state().cells(), old(self).state().cursor(),
                            final(self).state().cursor())
                },
                Action::ToggleCell => {
                    let (x, y) = old(self).state().cursor();
                    let c = toggled(old(self).state().cells()[y][x]);
                    &&& final(self).pace().is_paused()
                    &&& final(self).pace().step() == old(self).pace().step()
                    &&& final(self).state().cells() == with_cell(old(self).state().cells(), x, y, c)
                    &&& final(self).state().cursor() == old(self).state().cursor()
                    &&& r matches Response::Render(cs) && cs.wf() && cs@ == map![(x, y) => (c, true)]
                },
                Action::Quit => {
                    &&& r is Quit
                    &&& final(self).state() == old(self).state()
                    &&& final(self).pace() == old(self).pace()
                },
            },
    {
        match a {
            Action::TogglePause => {
                self.pacing.toggle_pause();
                Response::Idle
            },
            Action::SpeedUp => {
                self.pacing.change_step_time(STEP_CHANGE_MS as i64);
                Response::Idle
            },
            Action::SpeedDown => {
                self.pacing.change_step_time(-(STEP_CHANGE_MS as i64));
                Response::Idle
            },
            Action::ResetSpeed => {
                self.pacing.reset_step_time();
                Response::Idle
            },
            Action::MoveCursor(d) => {
                self.pacing.set_paused(true);
                Response::Render(self.model.offset_selected(d))
            },
            Action::ToggleCell => {
                self.pacing.set_paused(true);
                Response::Render(self.model.flip_selected())
            },
            Action::Quit => Response::Quit,
        }
    }

    /// A press of the pointer's primary button on the cell `(x, y)` moves the
    /// cursor there; a drag over it makes the cell alive.
    pub fn handle_pointer(&mut self, x: usize, y: usize, drawing: bool) -> (r: ChangeSet)
        requires
            old(self).wf(),
            in_grid(old(self).state().cells(), x as int, y as int),
        ensures
            final(self).wf(),
            final(self).pace() == old(self).pace(),
            r.wf(),
            drawing ==> {
                &&& final(self).state().cells() == with_cell(old(self).state().cells(), x as int, y as int,
                    Cell::Alive)
                &&& final(self).state().cursor() == old(self).state().cursor()
                &&& r@ == map![(x as int, y as int) => (Cell::Alive, false)]
            },
            !drawing ==> {
                &&& final(self).state().cells() == old(self).state().cells()
                &&& final(self).state().cursor() == (x as int, y as int)
                &&& r@ == cursor_changes(old(self).state().cells(), old(self).state().cursor(), (x as int, y as int))
            },
    {
        if drawing {
            self.model.paint(x, y)
        } else {
            self.model.move_selected(x, y)
        }
    }

    /// At time `now`, computes a generation if one is due and returns what to
    /// redraw; otherwise changes nothing.
    pub fn tick(&mut self, now: u64) -> (r: Option<ChangeSet>)
        requires
            old(self).wf(),
        ensures
            final(self).wf(),
            final(self).state().cursor() == old(self).state().cursor(),
            final(self).pace().is_paused() == old(self).pace().is_paused(),
            final(self).pace().step() == old(self).pace().step(),
            step_due(old(self).pace().is_paused(), old(self).pace().step(), old(self).pace().last(), now as int) ==> {
                &&& final(self).state().cells() == next_generation(old(self).state().cells())
                &&& final(self).pace().last() == now
                &&& r matches Some(cs) && cs.wf() && cs@ == generation_changes(old(self).state().cells())
            },
            !step_due(old(self).pace().is_paused(), old(self).pace().step(), old(self).pace().last(), now as int) ==> {
                &&& final(self).state() == old(self).state()
                &&& final(self).pace() == old(self).pace()
                &&& r is None
            },
    {
        if self.pacing.should_step(now) {
            let changes = self.model.update();
            self.pacing.record_step(now);
            Some(changes)
        } else {
            None
        }
    }
}

} // verus!
