//! Backlight of the touch strip: activity and lid tracking, the level that
//! follows from them, and the curve that maps the main display's brightness
//! to the strip's.

use vstd::prelude::*;
use crate::TIMEOUT_MS;

verus! {

/// Largest brightness that the main display reports.
pub const MAX_DISPLAY_BRIGHTNESS: u32 = 509;

/// Largest brightness that the curve hands out.
pub const MAX_TOUCH_BAR_BRIGHTNESS: u32 = 255;

/// Number of entries of the lookup table.
pub const LOOKUP_TABLE_SIZE: usize = 510;

/// Idle time after which the strip dims.
pub const BRIGHTNESS_DIM_TIMEOUT: i32 = TIMEOUT_MS * 3;

/// Idle time after which the strip turns off.
pub const BRIGHTNESS_OFF_TIMEOUT: i32 = TIMEOUT_MS * 6;

/// Brightness of the dimmed strip.
pub const DIMMED_BRIGHTNESS: u32 = 1;

#[derive(Clone, Copy, PartialEq, Eq, Structural, Debug)]
pub enum LidState {
    Open,
    Closed,
}

/// What the backlight needs to know of an input event.
#[derive(Clone, Copy, PartialEq, Eq, Structural, Debug)]
pub enum Activity {
    Keyboard,
    Pointer,
    Gesture,
    Touch,
    /// The lid switch toggled to the given state.
    Lid(LidState),
    /// Any other event: it neither counts as activity nor moves the lid.
    Other,
}

pub struct BacklightManager {
    /// Time of the last activity, in milliseconds.
    pub last_active: u64,
    /// The brightness that was last written to the device.
    pub current_bl: u32,
    pub lid_state: LidState,
    /// The device's largest brightness.
    pub max_bl: u32,
    /// The level of an active strip: as it is in fixed mode, and as the
    /// curve's top in adaptive mode.
    pub active_brightness: u32,
    /// The curve for `active_brightness`, one entry per display brightness.
    pub lookup_table: Vec<u32>,
}

/// `level` is the curve's value at `display`:
/// `clamp(round(sqrt(display / 509) * active) + 1, 1, 255)`.
///
/// With `r = level - 1`, `r` is the rounded root exactly when
/// `r - 1/2 <= sqrt(display / 509) * active < r + 1/2`; squared and cleared
/// of fractions that is `509 (2r - 1)^2 <= 4 display active^2 < 509 (2r + 1)^2`.
/// The lower bound is void at `r = 0`, the upper one where the clamp cuts.
pub open spec fn is_curve_level(level: int, display: int, active: int) -> bool {
    let x = 4 * display * active * active;
    &&& 1 <= level <= MAX_TOUCH_BAR_BRIGHTNESS
    &&& (level > 1 ==> 509 * ((2 * level - 3) * (2 * level - 3)) <= x)
    &&& (level < MAX_TOUCH_BAR_BRIGHTNESS ==> x < 509 * ((2 * level - 1) * (2 * level - 1)))
}

/// `table` is the whole curve for `active`.
pub open spec fn is_curve(table: Seq<u32>, active: int) -> bool {
    &&& table.len() == LOOKUP_TABLE_SIZE
    &&& forall|d: int| 0 <= d < table.len() ==> is_curve_level(#[trigger] table[d] as int, d, active)
}

/// `a` clamped from above by `b`.
pub open spec fn at_most(a: u32, b: u32) -> u32 {
    if a <= b {
        a
    } else {
        b
    }
}

/// The curve has one value at each point: two levels that both satisfy
/// `is_curve_level` for the same display brightness and active level are equal.
pub proof fn lemma_curve_level_unique(l1: int, l2: int, display: int, active: int)
    requires
        is_curve_level(l1, display, active),
        is_curve_level(l2, display, active),
    ensures
        l1 == l2,
{
    let x = 4 * display * active * active;
    if l1 < l2 {
        assert((2 * l1 - 1) * (2 * l1 - 1) <= (2 * l2 - 3) * (2 * l2 - 3)) by (nonlinear_arith)
            requires
                1 <= l1 < l2,
        ;
    } else if l2 < l1 {
        assert((2 * l2 - 1) * (2 * l2 - 1) <= (2 * l1 - 3) * (2 * l1 - 3)) by (nonlinear_arith)
            requires
                1 <= l2 < l1,
        ;
    }
}

/// The curve never reads zero, so a strip that is still active is never dark.
pub proof fn lemma_curve_level_positive(level: int, display: int, active: int)
    requires
        is_curve_level(level, display, active),
    ensures
        level >= 1,
{
}

/// The strip's level for one display brightness.
pub fn display_to_touchbar(display: u32, active_brightness: u32) -> (level: u32)
    requires
        display <= MAX_DISPLAY_BRIGHTNESS,
    ensures
        is_curve_level(level as int, display as int, active_brightness as int),
{
    let a: u128 = active_brightness as u128;
    assert(a * a <= 0xffff_ffff * 0xffff_ffff) by (nonlinear_arith)
        requires
            0 <= a <= 0xffff_ffff,
    ;
    let aa: u128 = a * a;
    assert(4 * (display as u128) * aa <= 4 * 509 * (0xffff_ffff * 0xffff_ffff)) by (nonlinear_arith)
        requires
            0 <= display <= 509,
            0 <= aa <= 0xffff_ffff * 0xffff_ffff,
    ;
    let x: u128 = 4 * (display as u128) * aa;
    assert(x == 4 * (display as int) * (active_brightness as int) * (active_brightness as int))
        by (nonlinear_arith)
        requires
            x == 4 * (display as int) * aa,
            aa == (active_brightness as int) * (active_brightness as int),
    ;
    let mut level: u32 = 1;
    let mut found = false;
    while level < MAX_TOUCH_BAR_BRIGHTNESS && !found
        invariant
            1 <= level <= MAX_TOUCH_BAR_BRIGHTNESS,
            x == 4 * (display as int) * (active_brightness as int) * (active_brightness as int),
            level > 1 ==> 509 * ((2 * level - 3) * (2 * level - 3)) <= x,
            found ==> x < 509 * ((2 * level - 1) * (2 * level - 1)),
        decreases MAX_TOUCH_BAR_BRIGHTNESS - level + (if found { 0int } else { 1int }),
    {
        let edge: u128 = 2 * (level as u128) - 1;
        assert(edge * edge <= 509 * 509) by (nonlinear_arith)
            requires
                0 <= edge <= 509,
        ;
        if x < 509 * (edge * edge) {
            found = true;
        } else {
            level = level + 1;
        }
    }
    level
}

impl BacklightManager {
    pub open spec fn wf(&self) -> bool {
        is_curve(self.lookup_table@, self.active_brightness as int)
    }

    /// Milliseconds since the last activity; a clock that ran backwards
    /// counts as no time passed.
    pub open spec fn idle(&self, now_ms: u64) -> int {
        if now_ms >= self.last_active {
            now_ms - self.last_active
        } else {
            0
        }
    }

    /// The level of an active strip: the curve's value at the display's
    /// brightness in adaptive mode, the configured level otherwise.
    pub open spec fn active_level(&self, adaptive: bool, display: u32) -> u32 {
        if adaptive {
            self.lookup_table@[display as int]
        } else {
            self.active_brightness
        }
    }

    /// The brightness that the strip should have at `now_ms`.
    pub open spec fn target(&self, now_ms: u64, adaptive: bool, display: u32) -> u32 {
        if self.lid_state == LidState::Closed {
            0
        } else if self.idle(now_ms) < BRIGHTNESS_DIM_TIMEOUT {
            at_most(self.active_level(adaptive, display), self.max_bl)
        } else if self.idle(now_ms) < BRIGHTNESS_OFF_TIMEOUT {
            at_most(DIMMED_BRIGHTNESS, self.max_bl)
        } else {
            0
        }
    }

    /// The curve for `active_brightness`, by display brightness.
    pub fn generate_lookup_table(active_brightness: u32) -> (table: Vec<u32>)
        ensures
            is_curve(table@, active_brightness as int),
    {
        let mut table: Vec<u32> = Vec::new();
        let mut d: u32 = 0;
        while d <= MAX_DISPLAY_BRIGHTNESS
            invariant
                d <= MAX_DISPLAY_BRIGHTNESS + 1,
                table@.len() == d,
                forall|i: int|
                    0 <= i < table@.len() ==> is_curve_level(
                        #[trigger] table@[i] as int,
                        i,
                        active_brightness as int,
                    ),
            decreases MAX_DISPLAY_BRIGHTNESS + 1 - d,
        {
            let level = display_to_touchbar(d, active_brightness);
            table.push(level);
            d = d + 1;
        }
        table
    }

    /// A manager for a device that now shows `current_bl` and takes at most
    /// `max_bl`, with the lid open and the last activity at `now_ms`.
    pub fn new(now_ms: u64, current_bl: u32, max_bl: u32, active_brightness: u32) -> (m:
        BacklightManager)
        ensures
            m.wf(),
            m.last_active == now_ms,
            m.current_bl == current_bl,
            m.max_bl == max_bl,
            m.active_brightness == active_brightness,
            m.lid_state == LidState::Open,
    {
        BacklightManager {
            last_active: now_ms,
            current_bl,
            lid_state: LidState::Open,
            max_bl,
            active_brightness,
            lookup_table: BacklightManager::generate_lookup_table(active_brightness),
        }
    }

    /// Takes a new active level and rebuilds the curve for it.
    pub fn set_active_brightness(&mut self, active_brightness: u32)
        ensures
            final(self).wf(),
            final(self).active_brightness == active_brightness,
            final(self).last_active == old(self).last_active,
            final(self).current_bl == old(self).current_bl,
            final(self).lid_state == old(self).lid_state,
            final(self).max_bl == old(self).max_bl,
    {
        self.active_brightness = active_brightness;
        self.lookup_table = BacklightManager::generate_lookup_table(active_brightness);
    }

    /// Whether `event` counts as activity: every keyboard, pointer, gesture
    /// and touch event does, and so does the lid opening.
    pub open spec fn stamps(event: Activity) -> bool {
        match event {
            Activity::Keyboard | Activity::Pointer | Activity::Gesture | Activity::Touch => true,
            Activity::Lid(LidState::Open) => true,
            _ => false,
        }
    }

    /// The manager after `event` arrived at `now_ms`: activity is stamped,
    /// and a lid event sets the lid's state.
    pub open spec fn stamped(self, event: Activity, now_ms: u64) -> BacklightManager {
        BacklightManager {
            last_active: if Self::stamps(event) {
                now_ms
            } else {
                self.last_active
            },
            lid_state: match event {
                Activity::Lid(state) => state,
                _ => self.lid_state,
            },
            ..self
        }
    }

    /// Records an input event that arrived at `now_ms`.
    pub fn process_event(&mut self, event: Activity, now_ms: u64)
        ensures
            *final(self) == old(self).stamped(event, now_ms),
    {
        match event {
            Activity::Keyboard | Activity::Pointer | Activity::Gesture | Activity::Touch => {
                self.last_active = now_ms;
            },
            Activity::Lid(state) => {
                self.lid_state = state;
                if state == LidState::Open {
                    self.last_active = now_ms;
                }
            },
            Activity::Other => {},
        }
    }

    /// Recomputes the brightness for `now_ms`. Returns the value to write to
    /// the device, or `None` where it is the one that was written last.
    pub fn update_backlight(&mut self, now_ms: u64, adaptive: bool, display: u32) -> (write:
        Option<u32>)
        requires
            old(self).wf(),
            adaptive ==> display <= MAX_DISPLAY_BRIGHTNESS,
        ensures
            final(self).wf(),
            final(self).current_bl == old(self).target(now_ms, adaptive, display),
            final(self).current_bl <= old(self).max_bl,
            write == if final(self).current_bl == old(self).current_bl {
                None
            } else {
                Some(final(self).current_bl)
            },
            final(self).last_active == old(self).last_active,
            final(self).lid_state == old(self).lid_state,
            final(self).max_bl == old(self).max_bl,
            final(self).active_brightness == old(self).active_brightness,
            final(self).lookup_table == old(self).lookup_table,
    {
        let since: u64 = if now_ms >= self.last_active {
            now_ms - self.last_active
        } else {
            0
        };
        let wanted: u32 = if self.lid_state == LidState::Closed {
            0
        } else if since < BRIGHTNESS_DIM_TIMEOUT as u64 {
            if adaptive {
                self.lookup_table[display as usize]
            } else {
                self.active_brightness
            }
        } else if since < BRIGHTNESS_OFF_TIMEOUT as u64 {
            DIMMED_BRIGHTNESS
        } else {
            0
        };
        let new_bl: u32 = if wanted <= self.max_bl {
            wanted
        } else {
            self.max_bl
        };
        if self.current_bl != new_bl {
            self.current_bl = new_bl;
            Some(new_bl)
        } else {
            None
        }
    }

    pub fn current_bl(&self) -> (bl: u32)
        ensures
            bl == self.current_bl,
    {
        self.current_bl
    }
}

/// With the lid closed the strip is dark, whatever the idle time, the mode
/// and the display's brightness.
pub proof fn lemma_closed_lid_is_dark(m: BacklightManager, now_ms: u64, adaptive: bool, display: u32)
    requires
        m.lid_state == LidState::Closed,
    ensures
        m.target(now_ms, adaptive, display) == 0,
{
}

/// With the lid open, an idle time between the two timeouts gives the dimmed
/// level, as far as the device takes it.
pub proof fn lemma_idle_between_timeouts_dims(
    m: BacklightManager,
    now_ms: u64,
    adaptive: bool,
    display: u32,
)
    requires
        m.lid_state == LidState::Open,
        BRIGHTNESS_DIM_TIMEOUT <= m.idle(now_ms) < BRIGHTNESS_OFF_TIMEOUT,
    ensures
        m.target(now_ms, adaptive, display) == at_most(DIMMED_BRIGHTNESS, m.max_bl),
{
}

/// Zero means off: with the lid open, before the off timeout, on a device
/// that can be lit and with an active level that is not zero, the strip is
/// never dark. In adaptive mode the curve sees to the level.
pub proof fn lemma_lit_strip_is_never_dark(
    m: BacklightManager,
    now_ms: u64,
    adaptive: bool,
    display: u32,
)
    requires
        m.wf(),
        m.lid_state == LidState::Open,
        m.idle(now_ms) < BRIGHTNESS_OFF_TIMEOUT,
        m.max_bl >= 1,
        adaptive ==> display <= MAX_DISPLAY_BRIGHTNESS,
        !adaptive ==> m.active_brightness >= 1,
    ensures
        m.target(now_ms, adaptive, display) >= 1,
{
    if adaptive {
        assert(is_curve_level(
            m.lookup_table@[display as int] as int,
            display as int,
            m.active_brightness as int,
        ));
    }
}

/// The timeouts fit the event loop: both are whole numbers of poll
/// intervals, and the strip dims before it turns off.
pub proof fn lemma_timeouts_fit_the_poll()
    ensures
        BRIGHTNESS_DIM_TIMEOUT % TIMEOUT_MS == 0,
        BRIGHTNESS_OFF_TIMEOUT % TIMEOUT_MS == 0,
        BRIGHTNESS_OFF_TIMEOUT > BRIGHTNESS_DIM_TIMEOUT,
{
}

} // verus!
