use vstd::prelude::*;

use vstd::arithmetic::div_mod::{lemma_fundamental_div_mod, lemma_fundamental_div_mod_converse};

use crate::engine::{indicator, lemma_dead_grid_stable, next_generation, step};
use crate::grid::{Grid, GridModel};

verus! {

/// What happened during one frame: at most one cell edit, the one-shot
/// commands, and how many frames have elapsed (normally 1).
pub struct FrameInput {
    pub toggle_at: Option<(usize, usize)>,
    pub step_requested: bool,
    pub autorun_toggled: bool,
    pub delay_increase: bool,
    pub delay_decrease: bool,
    pub reset_requested: bool,
    pub elapsed_frames: u64,
}

/// The mathematical picture of a controller.
pub struct ControllerModel {
    pub grid: GridModel,
    pub generation: nat,
    pub auto_run: bool,
    pub step_delay: nat,
    pub frame_accumulator: nat,
}

/// The step delay after this frame's delay commands: a decrease stops at 0,
/// an increase stops at the largest `u64`.
pub open spec fn adjusted_delay(delay: nat, increase: bool, decrease: bool) -> nat {
    let lowered = if decrease && delay > 0 {
        (delay - 1) as nat
    } else {
        delay
    };
    if increase && lowered < u64::MAX {
        lowered + 1
    } else {
        lowered
    }
}

/// The grid after this frame's edit and reset; a reset wins over an edit.
pub open spec fn edited_grid(g: GridModel, input: FrameInput) -> GridModel {
    if input.reset_requested {
        g.cleared()
    } else {
        match input.toggle_at {
            Some((x, y)) => g.toggled(x as int, y as int),
            None => g,
        }
    }
}

/// The state once the commands that never interact with stepping are applied.
pub open spec fn after_commands(s: ControllerModel, input: FrameInput) -> ControllerModel {
    ControllerModel {
        grid: edited_grid(s.grid, input),
        auto_run: s.auto_run != input.autorun_toggled,
        step_delay: adjusted_delay(s.step_delay, input.delay_increase, input.delay_decrease),
        ..s
    }
}

/// Whether this frame commits a step: on request, or when auto-running and
/// the accumulated frames exceed the step delay.
pub open spec fn commits(s: ControllerModel, input: FrameInput) -> bool {
    let e = after_commands(s, input);
    input.step_requested || (e.auto_run && e.frame_accumulator + input.elapsed_frames
        > e.step_delay)
}

/// The state at the end of a frame.
pub open spec fn frame_model(s: ControllerModel, input: FrameInput) -> ControllerModel {
    let e = after_commands(s, input);
    if commits(s, input) {
        ControllerModel {
            grid: next_generation(e.grid),
            generation: e.generation + 1,
            frame_accumulator: 0,
            ..e
        }
    } else if e.auto_run {
        ControllerModel {
            frame_accumulator: e.frame_accumulator + input.elapsed_frames as nat,
            ..e
        }
    } else {
        e
    }
}

/// A frame of one elapsed frame with no input at all.
pub open spec fn idle_input() -> FrameInput {
    FrameInput {
        toggle_at: None,
        step_requested: false,
        autorun_toggled: false,
        delay_increase: false,
        delay_decrease: false,
        reset_requested: false,
        elapsed_frames: 1,
    }
}

/// The state after `n` idle frames.
pub open spec fn run_idle(s: ControllerModel, n: nat) -> ControllerModel
    decreases n,
{
    if n == 0 {
        s
    } else {
        frame_model(run_idle(s, (n - 1) as nat), idle_input())
    }
}

/// The generation counter grows by exactly 1 on a frame that commits a step
/// and stays put otherwise; a cell edit never changes it.
pub proof fn lemma_generation_counts_steps(s: ControllerModel, input: FrameInput)
    ensures
        frame_model(s, input).generation == s.generation + indicator(commits(s, input)),
        frame_model(s, input).generation == frame_model(
            s,
            FrameInput { toggle_at: None, ..input },
        ).generation,
{
}

/// While auto-running with delay `d` and no input, a step commits exactly on
/// every `(d + 1)`-th frame: with delay 0, on every frame.
pub proof fn lemma_autorun_cadence(s: ControllerModel, n: nat)
    requires
        s.auto_run,
        s.frame_accumulator <= s.step_delay,
    ensures
        run_idle(s, n).auto_run,
        run_idle(s, n).step_delay == s.step_delay,
        run_idle(s, n).frame_accumulator == (s.frame_accumulator + n) % (s.step_delay + 1),
        run_idle(s, n).generation == s.generation + (s.frame_accumulator + n) / (s.step_delay
            + 1),
        commits(run_idle(s, n), idle_input()) <==> (s.frame_accumulator + n + 1) % (s.step_delay
            + 1) == 0,
    decreases n,
{
    let d: int = s.step_delay as int + 1;
    let a: int = s.frame_accumulator as int;
    let k: int = n as int;
    if n > 0 {
        lemma_autorun_cadence(s, (n - 1) as nat);
        lemma_next_quotient(a + k - 1, d);
    } else {
        lemma_fundamental_div_mod_converse(a, d, 0, a);
    }
    lemma_next_quotient(a + k, d);
}

/// How quotient and remainder by `d` move when `x` grows by one.
proof fn lemma_next_quotient(x: int, d: int)
    requires
        0 <= x,
        0 < d,
    ensures
        x % d + 1 == d ==> (x + 1) / d == x / d + 1 && (x + 1) % d == 0,
        x % d + 1 != d ==> (x + 1) / d == x / d && (x + 1) % d == x % d + 1,
{
    let q = x / d;
    let r = x % d;
    lemma_fundamental_div_mod(x, d);
    assert(x + 1 == q * d + r + 1 && (q + 1) * d == q * d + d) by (nonlinear_arith)
        requires
            x == d * q + r,
    ;
    if r + 1 == d {
        lemma_fundamental_div_mod_converse(x + 1, d, q + 1, 0);
    } else {
        lemma_fundamental_div_mod_converse(x + 1, d, q, r + 1);
    }
}

/// A reset leaves every cell dead, even when a step commits in the same
/// frame; it changes neither the step delay nor the generation counter.
pub proof fn lemma_reset_clears(s: ControllerModel, input: FrameInput)
    requires
        input.reset_requested,
    ensures
        frame_model(s, input).grid == s.grid.cleared(),
        !input.delay_increase && !input.delay_decrease ==> frame_model(s, input).step_delay
            == s.step_delay,
        !commits(s, input) ==> frame_model(s, input).generation == s.generation,
{
    lemma_dead_grid_stable(s.grid.width, s.grid.height);
}

/// Owns the grid and the simulation state, and turns each frame's input into
/// edits and at most one step.
pub struct Controller {
    grid: Grid,
    generation: u64,
    auto_run: bool,
    step_delay: u64,
    frame_accumulator: u64,
}

impl View for Controller {
    type V = ControllerModel;

    closed spec fn view(&self) -> ControllerModel {
        ControllerModel {
            grid: self.grid@,
            generation: self.generation as nat,
            auto_run: self.auto_run,
            step_delay: self.step_delay as nat,
            frame_accumulator: self.frame_accumulator as nat,
        }
    }
}

impl Controller {
    /// A controller at generation 0, not auto-running, with nothing accumulated.
    pub fn new(grid: Grid, step_delay: u64) -> (r: Controller)
        ensures
            r@ == (ControllerModel {
                grid: grid@,
                generation: 0,
                auto_run: false,
                step_delay: step_delay as nat,
                frame_accumulator: 0,
            }),
    {
        Controller { grid, generation: 0, auto_run: false, step_delay, frame_accumulator: 0 }
    }

    /// Applies one frame's input, then commits a step if it is due; returns
    /// whether a step was committed.
    pub fn frame(&mut self, input: &FrameInput) -> (stepped: bool)
        requires
            input.elapsed_frames >= 1,
            old(self)@.generation < u64::MAX,
            match input.toggle_at {
                Some((x, y)) => x < old(self)@.grid.width && y < old(self)@.grid.height,
                None => true,
            },
        ensures
            final(self)@ == frame_model(old(self)@, *input),
            stepped == commits(old(self)@, *input),
    {
        if let Some((x, y)) = input.toggle_at {
            self.grid.toggle(x, y);
        }
        if input.autorun_toggled {
            self.auto_run = !self.auto_run;
        }
        if input.delay_decrease && self.step_delay > 0 {
            self.step_delay = self.step_delay - 1;
        }
        if input.delay_increase && self.step_delay < u64::MAX {
            self.step_delay = self.step_delay + 1;
        }
        if input.reset_requested {
            self.grid.clear();
        }
        let due = if input.step_requested {
            true
        } else if self.auto_run {
            self.frame_accumulator > self.step_delay || input.elapsed_frames > self.step_delay
                - self.frame_accumulator
        } else {
            false
        };
        if due {
            self.grid = step(&self.grid);
            self.generation = self.generation + 1;
            self.frame_accumulator = 0;
        } else if self.auto_run {
            self.frame_accumulator = self.frame_accumulator + input.elapsed_frames;
        }
        due
    }

    /// The current grid.
    pub fn grid(&self) -> (r: &Grid)
        ensures
            r@ == self@.grid,
    {
        &self.grid
    }

    pub fn generation(&self) -> (r: u64)
        ensures
            r == self@.generation,
    {
        self.generation
    }

    pub fn auto_run(&self) -> (r: bool)
        ensures
            r == self@.auto_run,
    {
        self.auto_run
    }

    pub fn step_delay(&self) -> (r: u64)
        ensures
            r == self@.step_delay,
    {
        self.step_delay
    }

    pub fn frame_accumulator(&self) -> (r: u64)
        ensures
            r == self@.frame_accumulator,
    {
        self.frame_accumulator
    }
}

} // verus!
