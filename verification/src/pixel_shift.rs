//! Anti-burn-in pixel shifting: a time-driven state machine that sweeps the
//! rendered content a few pixels back and forth.
//!
//! Positions are exact: the fractional part of the sweep is counted in
//! animation ticks, `SUBPIXEL_STEPS` of which make one pixel.

use vstd::prelude::*;
use rand::Rng;
use crate::TIMEOUT_MS;

verus! {

/// Idle time between two one-pixel steps.
pub const INTERVAL_MS: i32 = TIMEOUT_MS * 1;

/// Idle time spent at either end of the sweep.
pub const PROLONGED_INTERVAL_MS: i32 = TIMEOUT_MS * 5;

/// Time between two animation ticks of a one-pixel step.
pub const ANIMATION_INTERVAL_MS: i32 = 200;

/// Duration of a whole one-pixel step.
pub const ANIMATION_DURATION_MS: i32 = 4000;

/// Animation ticks per pixel: the unit in which sub-pixel progress and the
/// offsets returned by [`PixelShiftManager::get`] are counted.
pub const SUBPIXEL_STEPS: i64 = 20;

/// Total horizontal range of the sweep, in pixels.
pub const PIXEL_SHIFT_WIDTH_PX: u64 = 22;

/// Total vertical range of the sweep, in pixels.
pub const PIXEL_SHIFT_HEIGHT_PX: u64 = 4;

#[derive(Clone, Copy, PartialEq, Eq, Structural, Debug)]
pub enum ShiftState {
    WaitingAtEnd,
    ShiftingSubpixel,
    Normal,
}

pub struct PixelShiftManager {
    /// Time of the last transition, in milliseconds.
    pub last_active: u64,
    /// Phase of the vertical drift relative to the horizontal one, in pixels.
    pub y_constant: u64,
    /// Whole pixels swept so far.
    pub pixel_progress: u64,
    /// Animation ticks swept beyond `pixel_progress`, signed like `direction`.
    pub subpixel_progress: i64,
    /// `1` while sweeping right, `-1` while sweeping left.
    pub direction: i64,
    pub state: ShiftState,
}

/// How long the machine rests in `state` before its next transition.
pub open spec fn wait_spec(state: ShiftState) -> int {
    match state {
        ShiftState::ShiftingSubpixel => ANIMATION_INTERVAL_MS as int,
        ShiftState::Normal => INTERVAL_MS as int,
        ShiftState::WaitingAtEnd => PROLONGED_INTERVAL_MS as int,
    }
}

/// Whether a sub-pixel progress of `steps` ticks has crossed 0.99 of a pixel
/// in either direction.
pub open spec fn crosses_pixel(steps: int) -> bool {
    steps * 100 >= 99 * SUBPIXEL_STEPS || steps * 100 <= -99 * SUBPIXEL_STEPS
}

/// Reflects `t`, taken modulo twice `bound`, into `[0, bound]`.
pub open spec fn reflect(t: int, bound: int) -> int {
    let m = t % (2 * bound);
    if m > bound {
        2 * bound - m
    } else {
        m
    }
}

pub fn wait_for_state(state: ShiftState) -> (ms: i32)
    ensures
        ms == wait_spec(state),
        ms > 0,
{
    match state {
        ShiftState::ShiftingSubpixel => ANIMATION_INTERVAL_MS,
        ShiftState::Normal => INTERVAL_MS,
        ShiftState::WaitingAtEnd => PROLONGED_INTERVAL_MS,
    }
}

/// Draws a number below `bound` with `rand::Rng::gen_range` on the thread's
/// generator. The generator is seeded by the system, so the contract gives
/// only the range that `gen_range` keeps to; it panics on an empty range,
/// which `requires` leaves out.
#[verifier::external_body]
fn random_below(bound: u64) -> (r: u64)
    requires
        bound > 0,
    ensures
        r < bound,
{
    rand::thread_rng().gen_range(0..bound)
}

impl PixelShiftManager {
    /// The invariant of the sweep: progress stays inside the range, the
    /// fractional part points away from the end that was last reached, and
    /// there is a fractional part only in the middle of a step.
    pub open spec fn wf(&self) -> bool {
        &&& self.pixel_progress <= PIXEL_SHIFT_WIDTH_PX
        &&& self.y_constant < 2 * PIXEL_SHIFT_HEIGHT_PX
        &&& (self.direction == 1 || self.direction == -1)
        &&& -SUBPIXEL_STEPS < self.subpixel_progress < SUBPIXEL_STEPS
        &&& (self.direction == 1 ==> self.subpixel_progress >= 0 && self.pixel_progress
            < PIXEL_SHIFT_WIDTH_PX)
        &&& (self.direction == -1 ==> self.subpixel_progress <= 0 && self.pixel_progress > 0)
        &&& (self.state != ShiftState::ShiftingSubpixel ==> self.subpixel_progress == 0)
    }

    /// Milliseconds since the last transition; a clock that ran backwards
    /// counts as no time passed.
    pub open spec fn elapsed(&self, now_ms: u64) -> int {
        if now_ms >= self.last_active {
            now_ms - self.last_active
        } else {
            0
        }
    }

    /// Whether a transition is due at `now_ms`.
    pub open spec fn due(&self, now_ms: u64) -> bool {
        self.elapsed(now_ms) >= wait_spec(self.state)
    }

    /// The machine after the transition that is due at `now_ms`.
    pub open spec fn advanced(&self, now_ms: u64) -> PixelShiftManager {
        match self.state {
            ShiftState::Normal => PixelShiftManager {
                last_active: now_ms,
                state: ShiftState::ShiftingSubpixel,
                ..*self
            },
            ShiftState::WaitingAtEnd => PixelShiftManager {
                last_active: now_ms,
                state: ShiftState::Normal,
                subpixel_progress: 0,
                ..*self
            },
            ShiftState::ShiftingSubpixel => {
                let steps = self.subpixel_progress + self.direction;
                if !crosses_pixel(steps) {
                    PixelShiftManager {
                        last_active: now_ms,
                        subpixel_progress: steps as i64,
                        ..*self
                    }
                } else {
                    let pixels = self.pixel_progress + self.direction;
                    let at_end = pixels == 0 || pixels >= PIXEL_SHIFT_WIDTH_PX;
                    PixelShiftManager {
                        last_active: now_ms,
                        pixel_progress: pixels as u64,
                        subpixel_progress: 0,
                        state: if at_end {
                            ShiftState::WaitingAtEnd
                        } else {
                            ShiftState::Normal
                        },
                        direction: if at_end {
                            (-self.direction) as i64
                        } else {
                            self.direction
                        },
                        ..*self
                    }
                }
            },
        }
    }

    /// Horizontal progress in animation ticks, from the left end of the sweep.
    pub open spec fn x_progress(&self) -> int {
        self.pixel_progress * SUBPIXEL_STEPS + self.subpixel_progress
    }

    /// The horizontal offset, in animation ticks, centred on zero.
    pub open spec fn x_offset(&self) -> int {
        self.x_progress() - (PIXEL_SHIFT_WIDTH_PX / 2) * SUBPIXEL_STEPS
    }

    /// The vertical offset, in animation ticks, centred on zero.
    pub open spec fn y_offset(&self) -> int {
        reflect(
            self.x_progress() + self.y_constant * SUBPIXEL_STEPS,
            PIXEL_SHIFT_HEIGHT_PX * SUBPIXEL_STEPS,
        ) - (PIXEL_SHIFT_HEIGHT_PX / 2) * SUBPIXEL_STEPS
    }

    /// A machine at rest at `pixel_progress`, about to sweep right.
    pub fn with_offsets(now_ms: u64, pixel_progress: u64, y_constant: u64) -> (m: PixelShiftManager)
        requires
            pixel_progress < PIXEL_SHIFT_WIDTH_PX,
            y_constant < 2 * PIXEL_SHIFT_HEIGHT_PX,
        ensures
            m == (PixelShiftManager {
                last_active: now_ms,
                y_constant,
                pixel_progress,
                subpixel_progress: 0,
                direction: 1,
                state: ShiftState::Normal,
            }),
            m.wf(),
    {
        PixelShiftManager {
            last_active: now_ms,
            y_constant,
            state: ShiftState::Normal,
            pixel_progress,
            subpixel_progress: 0,
            direction: 1,
        }
    }

    /// A machine at rest at a random place of the sweep, with a random phase
    /// between the two axes, so that the 2-D path differs from run to run.
    pub fn new(now_ms: u64) -> (m: PixelShiftManager)
        ensures
            m.wf(),
            m.last_active == now_ms,
            m.state == ShiftState::Normal,
            m.subpixel_progress == 0,
            m.direction == 1,
            m.pixel_progress < PIXEL_SHIFT_WIDTH_PX,
    {
        let pixel_progress = random_below(PIXEL_SHIFT_WIDTH_PX);
        let y_constant = random_below(PIXEL_SHIFT_HEIGHT_PX * 2);
        PixelShiftManager::with_offsets(now_ms, pixel_progress, y_constant)
    }

    /// Makes the transition that is due at `now_ms`, if any. Returns whether
    /// the offsets may have changed and, if so, the time until the next
    /// transition; `i32::MAX` stands for "nothing due from here".
    pub fn update(&mut self, now_ms: u64) -> (res: (bool, i32))
        requires
            old(self).wf(),
        ensures
            final(self).wf(),
            !old(self).due(now_ms) ==> res == (false, i32::MAX) && *final(self) == *old(self),
            old(self).due(now_ms) ==> res == (true, wait_spec(final(self).state) as i32)
                && *final(self) == old(self).advanced(now_ms),
    {
        let since: u64 = if now_ms >= self.last_active {
            now_ms - self.last_active
        } else {
            0
        };
        if since < wait_for_state(self.state) as u64 {
            return (false, i32::MAX);
        }
        self.last_active = now_ms;
        match self.state {
            ShiftState::Normal => {
                self.state = ShiftState::ShiftingSubpixel;
            },
            ShiftState::ShiftingSubpixel => {
                let steps: i64 = self.subpixel_progress + self.direction;
                if steps * 100 >= 99 * SUBPIXEL_STEPS || steps * 100 <= -99 * SUBPIXEL_STEPS {
                    if self.direction == 1 {
                        self.pixel_progress = self.pixel_progress + 1;
                    } else {
                        self.pixel_progress = self.pixel_progress - 1;
                    }
                    self.state = ShiftState::Normal;
                    self.subpixel_progress = 0;
                    if self.pixel_progress == 0 || self.pixel_progress >= PIXEL_SHIFT_WIDTH_PX {
                        self.state = ShiftState::WaitingAtEnd;
                        self.direction = -self.direction;
                    }
                } else {
                    self.subpixel_progress = steps;
                }
            },
            ShiftState::WaitingAtEnd => {
                self.state = ShiftState::Normal;
                self.subpixel_progress = 0;
            },
        }
        (true, wait_for_state(self.state))
    }

    /// The current offset as `(x, y)`, in animation ticks
    /// (`SUBPIXEL_STEPS` per pixel).
    pub fn get(&self) -> (res: (i32, i32))
        requires
            self.wf(),
        ensures
            res.0 == self.x_offset(),
            res.1 == self.y_offset(),
            -((PIXEL_SHIFT_WIDTH_PX / 2) * SUBPIXEL_STEPS) <= res.0 <= (PIXEL_SHIFT_WIDTH_PX / 2)
                * SUBPIXEL_STEPS,
            -((PIXEL_SHIFT_HEIGHT_PX / 2) * SUBPIXEL_STEPS) <= res.1 <= (PIXEL_SHIFT_HEIGHT_PX / 2)
                * SUBPIXEL_STEPS,
    {
        let x_progress: i64 = self.pixel_progress as i64 * SUBPIXEL_STEPS + self.subpixel_progress;
        let period: i64 = (PIXEL_SHIFT_HEIGHT_PX * 2) as i64 * SUBPIXEL_STEPS;
        let mut y_progress: i64 = (x_progress + self.y_constant as i64 * SUBPIXEL_STEPS) % period;
        if y_progress > PIXEL_SHIFT_HEIGHT_PX as i64 * SUBPIXEL_STEPS {
            y_progress = period - y_progress;
        }
        (
            (x_progress - (PIXEL_SHIFT_WIDTH_PX / 2) as i64 * SUBPIXEL_STEPS) as i32,
            (y_progress - (PIXEL_SHIFT_HEIGHT_PX / 2) as i64 * SUBPIXEL_STEPS) as i32,
        )
    }
}

/// Every transition keeps the sweep inside its range: from a well-formed
/// machine, the machine after a due transition is well-formed again, so
/// `pixel_progress` never leaves `[0, PIXEL_SHIFT_WIDTH_PX]`.
pub proof fn lemma_advance_keeps_range(m: PixelShiftManager, now_ms: u64)
    requires
        m.wf(),
    ensures
        m.advanced(now_ms).wf(),
        m.advanced(now_ms).pixel_progress <= PIXEL_SHIFT_WIDTH_PX,
{
}

/// The horizontal offset of a well-formed machine lies within half the
/// sweep's width on either side of zero.
pub proof fn lemma_x_offset_in_range(m: PixelShiftManager)
    requires
        m.wf(),
    ensures
        -((PIXEL_SHIFT_WIDTH_PX / 2) * SUBPIXEL_STEPS) <= m.x_offset() <= (PIXEL_SHIFT_WIDTH_PX / 2)
            * SUBPIXEL_STEPS,
{
}

/// No transition moves the content by more than one animation tick, so the
/// sweep is never seen as a jump.
pub proof fn lemma_advance_moves_one_tick(m: PixelShiftManager, now_ms: u64)
    requires
        m.wf(),
    ensures
        -1 <= m.advanced(now_ms).x_progress() - m.x_progress() <= 1,
        -1 <= m.advanced(now_ms).x_offset() - m.x_offset() <= 1,
{
}

/// The intervals fit the event loop: the rests are whole numbers of poll
/// intervals, the rest at an end is a multiple of the ordinary one and
/// longer, and the animation's ticks are shorter than a poll interval and
/// divide a pixel's step evenly.
pub proof fn lemma_intervals_fit_the_poll()
    ensures
        INTERVAL_MS % TIMEOUT_MS == 0,
        PROLONGED_INTERVAL_MS % INTERVAL_MS == 0,
        PROLONGED_INTERVAL_MS > INTERVAL_MS,
        ANIMATION_INTERVAL_MS < TIMEOUT_MS,
        ANIMATION_DURATION_MS == SUBPIXEL_STEPS * ANIMATION_INTERVAL_MS,
        PIXEL_SHIFT_WIDTH_PX % 2 == 0,
        PIXEL_SHIFT_HEIGHT_PX % 2 == 0,
{
}

} // verus!
