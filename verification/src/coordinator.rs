//! The coordinator of the event loop: what each input event and each tick
//! does to the layers, the tracked touches, the backlight and the pixel
//! shift, and what has to be sent, painted and waited for.
//!
//! The caller owns the devices. It hands every event and the time to the
//! coordinator and carries out what comes back.

use vstd::prelude::*;
use std::collections::HashMap;
use crate::backlight::{Activity, BacklightManager, LidState, MAX_DISPLAY_BRIGHTNESS};
use crate::config::Config;
use crate::layer::{DrawPlan, FunctionLayer, KeyEvent};
use crate::pixel_shift::{wait_spec, PixelShiftManager};
use crate::TIMEOUT_MS;

verus! {

broadcast use vstd::std_specs::hash::group_hash_axioms;

/// Code of the key that switches layers.
pub const KEY_FN: u16 = 0x1d0;

/// One contact's part in a touch event. Positions are in touch units on
/// the strip, `TOUCH_UNITS` per pixel.
#[derive(Clone, Copy, PartialEq, Eq, Structural, Debug)]
pub enum TouchKind {
    Down { slot: u32, x: i32, y: i32 },
    Motion { slot: u32, x: i32, y: i32 },
    Up { slot: u32 },
    /// A touch event that moves no contact, such as the end of a frame.
    Other,
}

/// An input event, reduced to what the coordinator reads of it. Devices
/// are named by numbers that the caller hands out.
pub enum InputEvent {
    DeviceAdded { device: u64, name: String },
    Key { code: u32, pressed: bool },
    Pointer,
    Gesture,
    Touch { device: u64, kind: TouchKind },
    /// The lid switch toggled to the given state.
    Lid(LidState),
    Other,
}

/// What to do before waiting for the next events.
pub struct Frame {
    /// What to paint and hand to the display, if anything.
    pub plan: Option<DrawPlan>,
    /// Longest time to wait for events, in milliseconds.
    pub timeout_ms: i32,
}

pub struct Coordinator {
    pub cfg: Config,
    /// The two layers; a tracked touch names its layer by its place here.
    pub layers: Vec<FunctionLayer>,
    /// `1` while the layer key is held, else `0`.
    pub active_layer: usize,
    /// Whether the two layers have changed roles.
    pub swapped: bool,
    pub needs_complete_redraw: bool,
    /// Whether the layer key went down and no touch has come since.
    pub waiting_for_touch_event: bool,
    /// The device whose touches count.
    pub digitizer: Option<u64>,
    /// For each contact that went down on a button: its layer and button.
    pub touches: HashMap<u32, (usize, usize)>,
    pub backlight: BacklightManager,
    pub pixel_shift: PixelShiftManager,
    pub width: u16,
    pub height: u16,
}

/// `pat` occurs in `s` as a run of neighbouring characters.
pub open spec fn occurs_in(pat: Seq<char>, s: Seq<char>) -> bool {
    exists|i: int|
        0 <= i && i + pat.len() <= s.len() && #[trigger] s.subrange(i, i + pat.len()) == pat
}

/// Whether a device of this name is the strip's digitizer.
pub open spec fn is_digitizer_name(name: Seq<char>) -> bool {
    occurs_in(" Touch Bar"@, name)
}

/// What the backlight makes of `event`.
pub open spec fn activity_of(event: InputEvent) -> Activity {
    match event {
        InputEvent::Key { .. } => Activity::Keyboard,
        InputEvent::Pointer => Activity::Pointer,
        InputEvent::Gesture => Activity::Gesture,
        InputEvent::Touch { .. } => Activity::Touch,
        InputEvent::Lid(state) => Activity::Lid(state),
        InputEvent::DeviceAdded { .. } | InputEvent::Other => Activity::Other,
    }
}

/// Whether a key code, cut to sixteen bits, is the layer key's.
pub open spec fn is_layer_key(code: u32) -> bool {
    code % 0x1_0000 == KEY_FN
}

/// `str::contains` with a string as the pattern: whether the pattern
/// matches a sub-slice of the string.
#[verifier::external_body]
fn contains_str(s: &str, pat: &str) -> (r: bool)
    ensures
        r == occurs_in(pat@, s@),
{
    s.contains(pat)
}

/// Asks `input_linux::Key::from_code` whether `code` names `Key::Fn`. The
/// crate maps each code below its key count to the key of that number, and
/// gives `Fn` the kernel's `KEY_FN`.
#[verifier::external_body]
fn is_fn_key(code: u16) -> (r: bool)
    ensures
        r == (code == KEY_FN),
{
    input_linux::Key::from_code(code) == Ok(input_linux::Key::Fn)
}

impl Coordinator {
    /// The parts are well-formed, there are two layers, and every tracked
    /// touch names a button that exists.
    pub open spec fn wf(&self) -> bool {
        &&& self.layers@.len() == 2
        &&& self.layers@[0].wf()
        &&& self.layers@[1].wf()
        &&& self.active_layer < 2
        &&& self.backlight.wf()
        &&& self.pixel_shift.wf()
        &&& forall|slot: u32| #[trigger]
            self.touches@.contains_key(slot) ==> self.names_button(self.touches@[slot])
    }

    /// `t` names a layer and a button of it.
    pub open spec fn names_button(&self, t: (usize, usize)) -> bool {
        t.0 < 2 && t.1 < self.layers@[t.0 as int].buttons@.len()
    }

    /// Place of the layer that is on show.
    pub open spec fn shown(&self) -> int {
        if self.swapped {
            1 - self.active_layer
        } else {
            self.active_layer as int
        }
    }

    /// Touches count when they come from the digitizer and the strip is lit.
    pub open spec fn accepts_touch(&self, device: u64) -> bool {
        self.digitizer == Some(device) && self.backlight.current_bl != 0
    }

    /// `post` has the settings, the strip, the pixel shift and the digitizer
    /// of `self`.
    pub open spec fn same_fixture(&self, post: &Coordinator) -> bool {
        &&& post.cfg == self.cfg
        &&& post.width == self.width
        &&& post.height == self.height
        &&& post.pixel_shift == self.pixel_shift
        &&& post.digitizer == self.digitizer
    }

    /// `post` shows the layer that `self` shows and owes the frame that it
    /// owes.
    pub open spec fn same_layer_choice(&self, post: &Coordinator) -> bool {
        &&& post.active_layer == self.active_layer
        &&& post.swapped == self.swapped
        &&& post.needs_complete_redraw == self.needs_complete_redraw
    }

    /// `post` has the layers of `self`, button by button.
    pub open spec fn same_buttons(&self, post: &Coordinator) -> bool {
        post.layers@ == self.layers@
    }

    /// `post` tracks the touches that `self` tracks.
    pub open spec fn same_touches(&self, post: &Coordinator) -> bool {
        post.touches@ == self.touches@
    }

    /// `post` has what `self` has, the backlight aside.
    pub open spec fn same_but_backlight(&self, post: &Coordinator) -> bool {
        &&& self.same_fixture(post)
        &&& self.same_layer_choice(post)
        &&& self.same_buttons(post)
        &&& self.same_touches(post)
        &&& post.waiting_for_touch_event == self.waiting_for_touch_event
    }

    /// The layers of `post` are those of `self` after `set_active(pressed)`
    /// on button `b` of layer `l`.
    pub open spec fn pressed_button(&self, post: &Coordinator, l: int, b: int, pressed: bool)
        -> bool {
        &&& post.layers@.len() == 2
        &&& post.layers@[1 - l] == self.layers@[1 - l]
        &&& post.layers@[l].virtual_button_count == self.layers@[l].virtual_button_count
        &&& post.layers@[l].buttons@ == self.layers@[l].buttons@.update(
            b,
            (self.layers@[l].buttons@[b].0, self.layers@[l].buttons@[b].1.pressed_to(pressed)),
        )
    }

    /// The key event of `set_active(pressed)` on button `b` of layer `l`.
    pub open spec fn press_event(&self, l: int, b: int, pressed: bool) -> Option<KeyEvent> {
        self.layers@[l].buttons@[b].1.emitted(pressed)
    }

    /// What an accepted touch does to layers and tracked touches.
    ///
    /// A contact that goes down on a button is tracked and presses it; one
    /// that goes down elsewhere is not tracked. A tracked contact that moves
    /// holds its button down while it stays on it, and releases and forgets
    /// it when it goes up. A contact that is not tracked does nothing.
    pub open spec fn touch_moves(&self, post: &Coordinator, kind: TouchKind, out: Option<KeyEvent>)
        -> bool {
        let w = self.width as int;
        let h = self.height as int;
        match kind {
            TouchKind::Down { slot, x, y } => {
                let l = self.shown();
                match self.layers@[l].hit_spec(w, h, x as int, y as int, None) {
                    Some(b) => {
                        &&& self.pressed_button(post, l, b as int, true)
                        &&& post.touches@ == self.touches@.insert(slot, (l as usize, b))
                        &&& out == self.press_event(l, b as int, true)
                    },
                    None => self.same_buttons(post) && self.same_touches(post) && out is None,
                }
            },
            TouchKind::Motion { slot, x, y } => {
                if self.touches@.contains_key(slot) {
                    let l = self.touches@[slot].0 as int;
                    let b = self.touches@[slot].1;
                    let on = self.layers@[l].hit_spec(w, h, x as int, y as int, Some(b)) is Some;
                    &&& self.pressed_button(post, l, b as int, on)
                    &&& self.same_touches(post)
                    &&& out == self.press_event(l, b as int, on)
                } else {
                    self.same_buttons(post) && self.same_touches(post) && out is None
                }
            },
            TouchKind::Up { slot } => {
                if self.touches@.contains_key(slot) {
                    let l = self.touches@[slot].0 as int;
                    let b = self.touches@[slot].1 as int;
                    &&& self.pressed_button(post, l, b, false)
                    &&& post.touches@ == self.touches@.remove(slot)
                    &&& out == self.press_event(l, b, false)
                } else {
                    self.same_buttons(post) && self.same_touches(post) && out is None
                }
            },
            TouchKind::Other => self.same_buttons(post) && self.same_touches(post) && out is None,
        }
    }

    /// What a touch event does, the backlight aside: nothing unless it is
    /// accepted; else it ends the wait of a layer key that locks, and moves
    /// its contact.
    pub open spec fn touched(
        &self,
        post: &Coordinator,
        device: u64,
        kind: TouchKind,
        out: Option<KeyEvent>,
    ) -> bool {
        if !self.accepts_touch(device) {
            self.same_but_backlight(post) && out is None
        } else {
            &&& self.same_fixture(post)
            &&& self.same_layer_choice(post)
            &&& post.waiting_for_touch_event == (self.waiting_for_touch_event
                && !self.cfg.fn_toggle_layers)
            &&& self.touch_moves(post, kind, out)
        }
    }

    /// What a key does, the backlight aside. The layer key shows the
    /// second layer while it is held. Where it locks, releasing it with no
    /// touch since it went down makes the two layers change roles.
    pub open spec fn keyed(&self, post: &Coordinator, code: u32, pressed: bool) -> bool {
        &&& self.same_fixture(post)
        &&& self.same_buttons(post)
        &&& self.same_touches(post)
        &&& if is_layer_key(code) {
            let wanted: usize = if pressed {
                1
            } else {
                0
            };
            let swap = self.cfg.fn_toggle_layers && !pressed && self.waiting_for_touch_event;
            &&& post.active_layer == wanted
            &&& post.swapped == (self.swapped != swap)
            &&& post.needs_complete_redraw == (self.needs_complete_redraw || self.active_layer
                != wanted || swap)
            &&& post.waiting_for_touch_event == (self.waiting_for_touch_event || (
            self.cfg.fn_toggle_layers && pressed))
        } else {
            self.same_layer_choice(post) && post.waiting_for_touch_event
                == self.waiting_for_touch_event
        }
    }

    /// What `event` does and sends, the backlight aside.
    pub open spec fn handled(&self, post: &Coordinator, event: InputEvent, out: Option<KeyEvent>)
        -> bool {
        match event {
            InputEvent::DeviceAdded { device, name } => {
                &&& post.cfg == self.cfg
                &&& post.width == self.width
                &&& post.height == self.height
                &&& post.pixel_shift == self.pixel_shift
                &&& post.digitizer == if is_digitizer_name(name@) {
                    Some(device)
                } else {
                    self.digitizer
                }
                &&& self.same_layer_choice(post)
                &&& self.same_buttons(post)
                &&& self.same_touches(post)
                &&& post.waiting_for_touch_event == self.waiting_for_touch_event
                &&& out is None
            },
            InputEvent::Key { code, pressed } => self.keyed(post, code, pressed) && out is None,
            InputEvent::Touch { device, kind } => self.touched(post, device, kind, out),
            _ => self.same_but_backlight(post) && out is None,
        }
    }

    /// A coordinator that shows the first layer and owes a complete frame.
    pub fn new(
        cfg: Config,
        layers: Vec<FunctionLayer>,
        width: u16,
        height: u16,
        backlight: BacklightManager,
        pixel_shift: PixelShiftManager,
    ) -> (c: Coordinator)
        requires
            layers@.len() == 2,
            layers@[0].wf(),
            layers@[1].wf(),
            backlight.wf(),
            pixel_shift.wf(),
        ensures
            c.wf(),
            c.cfg == cfg,
            c.layers == layers,
            c.width == width,
            c.height == height,
            c.backlight == backlight,
            c.pixel_shift == pixel_shift,
            c.active_layer == 0,
            !c.swapped,
            c.needs_complete_redraw,
            !c.waiting_for_touch_event,
            c.digitizer is None,
            c.touches@ == Map::<u32, (usize, usize)>::empty(),
    {
        Coordinator {
            cfg,
            layers,
            active_layer: 0,
            swapped: false,
            needs_complete_redraw: true,
            waiting_for_touch_event: false,
            digitizer: None,
            touches: HashMap::new(),
            backlight,
            pixel_shift,
            width,
            height,
        }
    }

    /// Takes new settings and layers: shows the first layer again, owes a
    /// complete frame, and forgets every tracked touch, since the buttons
    /// that they named are gone.
    pub fn reload(&mut self, cfg: Config, layers: Vec<FunctionLayer>)
        requires
            old(self).wf(),
            layers@.len() == 2,
            layers@[0].wf(),
            layers@[1].wf(),
        ensures
            final(self).wf(),
            final(self).cfg == cfg,
            final(self).layers == layers,
            final(self).active_layer == 0,
            !final(self).swapped,
            final(self).needs_complete_redraw,
            final(self).touches@ == Map::<u32, (usize, usize)>::empty(),
            final(self).waiting_for_touch_event == old(self).waiting_for_touch_event,
            final(self).digitizer == old(self).digitizer,
            final(self).pixel_shift == old(self).pixel_shift,
            final(self).width == old(self).width,
            final(self).height == old(self).height,
            final(self).backlight.active_brightness == cfg.active_brightness,
            final(self).backlight.last_active == old(self).backlight.last_active,
            final(self).backlight.current_bl == old(self).backlight.current_bl,
            final(self).backlight.lid_state == old(self).backlight.lid_state,
            final(self).backlight.max_bl == old(self).backlight.max_bl,
    {
        self.backlight.set_active_brightness(cfg.active_brightness);
        self.cfg = cfg;
        self.layers = layers;
        self.active_layer = 0;
        self.swapped = false;
        self.needs_complete_redraw = true;
        self.touches.clear();
    }

    /// Place of the layer that is on show.
    pub fn shown_layer(&self) -> (l: usize)
        requires
            self.active_layer < 2,
        ensures
            l == self.shown(),
            l < 2,
    {
        if self.swapped {
            1 - self.active_layer
        } else {
            self.active_layer
        }
    }

    /// Starts a tick: lets the pixel shift make the step that is due, plans
    /// a frame if one is owed or a button of the shown layer changed, and
    /// says how long to wait for events: the base interval, or less where
    /// the pixel shift is due earlier.
    pub fn begin_frame(&mut self, now_ms: u64) -> (frame: Frame)
        requires
            old(self).wf(),
        ensures
            final(self).wf(),
            final(self).cfg == old(self).cfg,
            final(self).width == old(self).width,
            final(self).height == old(self).height,
            final(self).digitizer == old(self).digitizer,
            final(self).active_layer == old(self).active_layer,
            final(self).swapped == old(self).swapped,
            final(self).waiting_for_touch_event == old(self).waiting_for_touch_event,
            final(self).backlight == old(self).backlight,
            old(self).same_touches(final(self)),
            !final(self).needs_complete_redraw,
            final(self).pixel_shift == old(self).shifted(now_ms),
            frame.timeout_ms == old(self).next_timeout(now_ms),
            0 < frame.timeout_ms <= TIMEOUT_MS,
            frame.plan is Some <==> old(self).paints(now_ms),
            !old(self).paints(now_ms) ==> old(self).same_buttons(final(self)),
            old(self).paints(now_ms) ==> {
                let l = old(self).shown();
                &&& final(self).layers@[1 - l] == old(self).layers@[1 - l]
                &&& old(self).layers@[l].painted(&final(self).layers@[l])
                &&& old(self).layers@[l].planned(
                    &frame.plan.unwrap(),
                    &old(self).cfg,
                    old(self).width,
                    old(self).height,
                    final(self).shift(),
                    old(self).repaints_all(now_ms),
                )
            },
    {
        let mut next_timeout_ms: i32 = TIMEOUT_MS;
        if self.cfg.enable_pixel_shift {
            let (moved, due_ms) = self.pixel_shift.update(now_ms);
            if moved {
                self.needs_complete_redraw = true;
            }
            if due_ms < next_timeout_ms {
                next_timeout_ms = due_ms;
            }
        }
        let l = self.shown_layer();
        let plan = if self.needs_complete_redraw || self.layers[l].any_changed() {
            let shift = if self.cfg.enable_pixel_shift {
                self.pixel_shift.get()
            } else {
                (0, 0)
            };
            let complete = self.needs_complete_redraw;
            let plan = self.layers[l].draw(&self.cfg, self.width, self.height, shift, complete);
            self.needs_complete_redraw = false;
            Some(plan)
        } else {
            None
        };
        Frame { plan, timeout_ms: next_timeout_ms }
    }

    /// The pixel shift after the tick at `now_ms`.
    pub open spec fn shifted(&self, now_ms: u64) -> PixelShiftManager {
        if self.cfg.enable_pixel_shift && self.pixel_shift.due(now_ms) {
            self.pixel_shift.advanced(now_ms)
        } else {
            self.pixel_shift
        }
    }

    /// Whether the tick at `now_ms` owes a complete frame.
    pub open spec fn repaints_all(&self, now_ms: u64) -> bool {
        self.needs_complete_redraw || (self.cfg.enable_pixel_shift && self.pixel_shift.due(now_ms))
    }

    /// Whether the tick at `now_ms` paints at all.
    pub open spec fn paints(&self, now_ms: u64) -> bool {
        self.repaints_all(now_ms) || self.layers@[self.shown()].has_changed()
    }

    /// The offset by which a frame is shifted.
    pub open spec fn shift(&self) -> (i32, i32) {
        if self.cfg.enable_pixel_shift {
            (self.pixel_shift.x_offset() as i32, self.pixel_shift.y_offset() as i32)
        } else {
            (0, 0)
        }
    }

    /// The wait after the tick at `now_ms`: the smaller of the base interval
    /// and the time until the pixel shift's next step, which counts only
    /// where the pixel shift has just made one.
    pub open spec fn next_timeout(&self, now_ms: u64) -> int {
        if self.cfg.enable_pixel_shift && self.pixel_shift.due(now_ms) {
            let due = wait_spec(self.pixel_shift.advanced(now_ms).state);
            if due < TIMEOUT_MS {
                due
            } else {
                TIMEOUT_MS as int
            }
        } else {
            TIMEOUT_MS as int
        }
    }

    /// Handles a key.
    pub fn key(&mut self, code: u32, pressed: bool)
        requires
            old(self).wf(),
        ensures
            final(self).wf(),
            final(self).backlight == old(self).backlight,
            old(self).keyed(final(self), code, pressed),
    {
        if is_fn_key((code % 0x1_0000) as u16) {
            let new_layer: usize = if pressed {
                1
            } else {
                0
            };
            if self.active_layer != new_layer {
                self.active_layer = new_layer;
                self.needs_complete_redraw = true;
            }
            if self.cfg.fn_toggle_layers {
                if pressed {
                    self.waiting_for_touch_event = true;
                } else if self.waiting_for_touch_event {
                    self.swapped = !self.swapped;
                    self.needs_complete_redraw = true;
                }
            }
        }
    }

    /// Pressing or releasing a button keeps the layers well-formed and the
    /// buttons in their places.
    pub proof fn lemma_press_keeps_layout(&self, post: &Coordinator, l: int, b: int, pressed: bool)
        requires
            self.layers@.len() == 2,
            self.layers@[0].wf(),
            self.layers@[1].wf(),
            0 <= l < 2,
            0 <= b < self.layers@[l].buttons@.len(),
            self.pressed_button(post, l, b, pressed),
        ensures
            post.layers@[0].wf(),
            post.layers@[1].wf(),
            post.layers@[0].buttons@.len() == self.layers@[0].buttons@.len(),
            post.layers@[1].buttons@.len() == self.layers@[1].buttons@.len(),
    {
        let before = self.layers@[l];
        let after = post.layers@[l];
        assert forall|i: int| 0 <= i < after.buttons@.len() implies after.start_of(i)
            < #[trigger] after.end_of(i) by {
            assert(before.start_of(i) < before.end_of(i));
        }
    }

    /// A contact goes down.
    fn touch_down(&mut self, slot: u32, x: i32, y: i32) -> (out: Option<KeyEvent>)
        requires
            old(self).wf(),
        ensures
            final(self).wf(),
            final(self).backlight == old(self).backlight,
            old(self).same_fixture(final(self)),
            old(self).same_layer_choice(final(self)),
            final(self).waiting_for_touch_event == old(self).waiting_for_touch_event,
            old(self).touch_moves(final(self), TouchKind::Down { slot, x, y }, out),
    {
        let l = self.shown_layer();
        match self.layers[l].hit(self.width, self.height, x, y, None) {
            Some(b) => {
                self.touches.insert(slot, (l, b));
                let out = self.layers[l].buttons[b].1.set_active(true);
                proof {
                    old(self).lemma_press_keeps_layout(self, l as int, b as int, true);
                }
                out
            },
            None => None,
        }
    }

    /// A contact moves.
    fn touch_motion(&mut self, slot: u32, x: i32, y: i32) -> (out: Option<KeyEvent>)
        requires
            old(self).wf(),
        ensures
            final(self).wf(),
            final(self).backlight == old(self).backlight,
            old(self).same_fixture(final(self)),
            old(self).same_layer_choice(final(self)),
            final(self).waiting_for_touch_event == old(self).waiting_for_touch_event,
            old(self).touch_moves(final(self), TouchKind::Motion { slot, x, y }, out),
    {
        let held = match self.touches.get(&slot) {
            Some(t) => Some(*t),
            None => None,
        };
        match held {
            Some((l, b)) => {
                assert(self.touches@.contains_key(slot));
                let on = self.layers[l].hit(self.width, self.height, x, y, Some(b)).is_some();
                let out = self.layers[l].buttons[b].1.set_active(on);
                proof {
                    old(self).lemma_press_keeps_layout(self, l as int, b as int, on);
                }
                out
            },
            None => None,
        }
    }

    /// A contact goes up.
    fn touch_up(&mut self, slot: u32) -> (out: Option<KeyEvent>)
        requires
            old(self).wf(),
        ensures
            final(self).wf(),
            final(self).backlight == old(self).backlight,
            old(self).same_fixture(final(self)),
            old(self).same_layer_choice(final(self)),
            final(self).waiting_for_touch_event == old(self).waiting_for_touch_event,
            old(self).touch_moves(final(self), TouchKind::Up { slot }, out),
    {
        match self.touches.remove(&slot) {
            Some((l, b)) => {
                assert(old(self).touches@.contains_key(slot));
                let out = self.layers[l].buttons[b].1.set_active(false);
                proof {
                    old(self).lemma_press_keeps_layout(self, l as int, b as int, false);
                }
                out
            },
            None => {
                assert(self.touches@ =~= old(self).touches@);
                None
            },
        }
    }

    /// Handles a touch event of `device`. Returns the key event to send.
    pub fn touch(&mut self, device: u64, kind: TouchKind) -> (out: Option<KeyEvent>)
        requires
            old(self).wf(),
        ensures
            final(self).wf(),
            final(self).backlight == old(self).backlight,
            old(self).touched(final(self), device, kind, out),
    {
        let from_digitizer = match self.digitizer {
            Some(d) => d == device,
            None => false,
        };
        if !from_digitizer || self.backlight.current_bl() == 0 {
            return None;
        }
        if self.cfg.fn_toggle_layers {
            self.waiting_for_touch_event = false;
        }
        let ghost mid = *self;
        let out = match kind {
            TouchKind::Down { slot, x, y } => self.touch_down(slot, x, y),
            TouchKind::Motion { slot, x, y } => self.touch_motion(slot, x, y),
            TouchKind::Up { slot } => self.touch_up(slot),
            TouchKind::Other => None,
        };
        assert(mid.touch_moves(self, kind, out));
        assert(mid.layers == old(self).layers);
        assert(mid.touches == old(self).touches);
        out
    }

    /// Handles one input event that arrived at `now_ms`: stamps the
    /// backlight's activity, then lets the event do what it does. Returns
    /// the key event to send, if any.
    pub fn handle_event(&mut self, event: &InputEvent, now_ms: u64) -> (out: Option<KeyEvent>)
        requires
            old(self).wf(),
        ensures
            final(self).wf(),
            final(self).backlight == old(self).backlight.stamped(activity_of(*event), now_ms),
            old(self).handled(final(self), *event, out),
    {
        match event {
            InputEvent::DeviceAdded { device, name } => {
                self.backlight.process_event(Activity::Other, now_ms);
                if contains_str(name.as_str(), " Touch Bar") {
                    self.digitizer = Some(*device);
                }
                None
            },
            InputEvent::Key { code, pressed } => {
                self.backlight.process_event(Activity::Keyboard, now_ms);
                self.key(*code, *pressed);
                None
            },
            InputEvent::Pointer => {
                self.backlight.process_event(Activity::Pointer, now_ms);
                None
            },
            InputEvent::Gesture => {
                self.backlight.process_event(Activity::Gesture, now_ms);
                None
            },
            InputEvent::Touch { device, kind } => {
                self.backlight.process_event(Activity::Touch, now_ms);
                self.touch(*device, *kind)
            },
            InputEvent::Lid(state) => {
                self.backlight.process_event(Activity::Lid(*state), now_ms);
                None
            },
            InputEvent::Other => {
                self.backlight.process_event(Activity::Other, now_ms);
                None
            },
        }
    }

    /// Ends a tick: recomputes the strip's brightness from the idle time,
    /// the lid and, in adaptive mode, the display's brightness. Returns the
    /// value to write to the device, or `None` where nothing changed.
    pub fn update_backlight(&mut self, now_ms: u64, display: u32) -> (write: Option<u32>)
        requires
            old(self).wf(),
            old(self).cfg.adaptive_brightness ==> display <= MAX_DISPLAY_BRIGHTNESS,
        ensures
            final(self).wf(),
            old(self).same_but_backlight(final(self)),
            final(self).backlight.current_bl == old(self).backlight.target(
                now_ms,
                old(self).cfg.adaptive_brightness,
                display,
            ),
            write == if final(self).backlight.current_bl == old(self).backlight.current_bl {
                None
            } else {
                Some(final(self).backlight.current_bl)
            },
            final(self).backlight.last_active == old(self).backlight.last_active,
            final(self).backlight.lid_state == old(self).backlight.lid_state,
            final(self).backlight.max_bl == old(self).backlight.max_bl,
            final(self).backlight.active_brightness == old(self).backlight.active_brightness,
    {
        self.backlight.update_backlight(now_ms, self.cfg.adaptive_brightness, display)
    }
}

/// A contact that goes down outside every button of the shown layer is
/// not tracked, presses nothing and sends nothing.
pub proof fn lemma_down_outside_is_ignored(
    pre: Coordinator,
    post: Coordinator,
    device: u64,
    slot: u32,
    x: i32,
    y: i32,
    out: Option<KeyEvent>,
)
    requires
        pre.wf(),
        pre.handled(
            &post,
            InputEvent::Touch { device, kind: TouchKind::Down { slot, x, y } },
            out,
        ),
        forall|i: int|
            0 <= i < pre.layers@[pre.shown()].buttons@.len() ==> !pre.layers@[pre.shown()].inside(
                i,
                pre.width as int,
                pre.height as int,
                x as int,
                y as int,
            ),
    ensures
        out is None,
        post.touches@ == pre.touches@,
        post.layers@ == pre.layers@,
{
}

/// The slot of the contact that `kind` moves or lifts, if it does either.
pub open spec fn moved_slot(kind: TouchKind) -> Option<u32> {
    match kind {
        TouchKind::Motion { slot, .. } => Some(slot),
        TouchKind::Up { slot } => Some(slot),
        _ => None,
    }
}

/// A contact that is not tracked does nothing and sends nothing when it
/// moves or goes up.
pub proof fn lemma_untracked_contact_is_ignored(
    pre: Coordinator,
    post: Coordinator,
    device: u64,
    kind: TouchKind,
    out: Option<KeyEvent>,
)
    requires
        moved_slot(kind) is Some,
        !pre.touches@.contains_key(moved_slot(kind).unwrap()),
        pre.handled(&post, InputEvent::Touch { device, kind }, out),
    ensures
        out is None,
        post.touches@ == pre.touches@,
        post.layers@ == pre.layers@,
{
}

/// Where no touch is tracked, as after `reload`, a contact that goes up
/// or moves does nothing and sends nothing, whatever its slot.
pub proof fn lemma_contact_after_reload_is_ignored(
    pre: Coordinator,
    post: Coordinator,
    device: u64,
    kind: TouchKind,
    out: Option<KeyEvent>,
)
    requires
        pre.touches@ == Map::<u32, (usize, usize)>::empty(),
        moved_slot(kind) is Some,
        pre.handled(&post, InputEvent::Touch { device, kind }, out),
    ensures
        out is None,
        post.touches@ == pre.touches@,
        post.layers@ == pre.layers@,
{
    lemma_untracked_contact_is_ignored(pre, post, device, kind, out);
}

/// A contact that goes down outside every button of the shown layer stays
/// without effect: neither its going down, nor a move to any place, nor its
/// going up sends a key or changes a button or the tracked touches.
///
/// `before` is the coordinator before the contact goes down, and `down`,
/// `moved` and `up` are the coordinators after the three events. The slot
/// is free when the contact goes down, as the slot of a new contact is.
pub proof fn lemma_missed_contact_stays_ignored(
    before: Coordinator,
    down: Coordinator,
    moved: Coordinator,
    up: Coordinator,
    device: u64,
    slot: u32,
    at: (i32, i32),
    to: (i32, i32),
    outs: (Option<KeyEvent>, Option<KeyEvent>, Option<KeyEvent>),
)
    requires
        before.wf(),
        !before.touches@.contains_key(slot),
        forall|i: int|
            0 <= i < before.layers@[before.shown()].buttons@.len()
                ==> !before.layers@[before.shown()].inside(
                i,
                before.width as int,
                before.height as int,
                at.0 as int,
                at.1 as int,
            ),
        before.handled(
            &down,
            InputEvent::Touch { device, kind: TouchKind::Down { slot, x: at.0, y: at.1 } },
            outs.0,
        ),
        down.handled(
            &moved,
            InputEvent::Touch { device, kind: TouchKind::Motion { slot, x: to.0, y: to.1 } },
            outs.1,
        ),
        moved.handled(
            &up,
            InputEvent::Touch { device, kind: TouchKind::Up { slot } },
            outs.2,
        ),
    ensures
        outs.0 is None,
        outs.1 is None,
        outs.2 is None,
        down.layers@ == before.layers@,
        moved.layers@ == before.layers@,
        up.layers@ == before.layers@,
        up.touches@ == before.touches@,
{
    lemma_down_outside_is_ignored(before, down, device, slot, at.0, at.1, outs.0);
    lemma_untracked_contact_is_ignored(
        down,
        moved,
        device,
        TouchKind::Motion { slot, x: to.0, y: to.1 },
        outs.1,
    );
    lemma_untracked_contact_is_ignored(moved, up, device, TouchKind::Up { slot }, outs.2);
}

/// Two layers with the same buttons' places lay their buttons out alike.
pub open spec fn same_layout(a: FunctionLayer, b: FunctionLayer) -> bool {
    &&& a.virtual_button_count == b.virtual_button_count
    &&& a.buttons@.len() == b.buttons@.len()
    &&& forall|i: int| 0 <= i < a.buttons@.len() ==> (#[trigger] a.buttons@[i]).0 == b.buttons@[i].0
}

/// The state in the middle of a tap: the contact is tracked on button `b`
/// of layer `l`, which is held down, and the layer is laid out as `first`.
pub open spec fn holding(s: Coordinator, first: Coordinator, slot: u32, l: int, b: int) -> bool {
    &&& s.layers@.len() == 2
    &&& s.width == first.width
    &&& s.height == first.height
    &&& s.touches@.contains_key(slot)
    &&& s.touches@[slot] == (l as usize, b as usize)
    &&& same_layout(s.layers@[l], first.layers@[l])
    &&& s.layers@[l].buttons@[b].1.active
    &&& s.layers@[l].buttons@[b].1.action == first.layers@[l].buttons@[b].1.action
}

/// One contact that goes down on a button at rest, moves any number of
/// times without leaving the button's rectangle, and goes up sends exactly
/// one key-down and one key-up, in that order.
///
/// `states` holds the coordinator before the tap and after each of its
/// events, `points` where the contact went down and then where it moved to,
/// and `outs` what each event sent. Every event of the tap is accepted.
pub proof fn lemma_tap_sends_down_then_up(
    states: Seq<Coordinator>,
    outs: Seq<Option<KeyEvent>>,
    points: Seq<(i32, i32)>,
    device: u64,
    slot: u32,
    b: usize,
)
    requires
        points.len() >= 1,
        states.len() == points.len() + 2,
        outs.len() == points.len() + 1,
        states[0].wf(),
        forall|k: int| 0 <= k <= points.len() ==> (#[trigger] states[k]).accepts_touch(device),
        states[0].layers@[states[0].shown()].hit_spec(
            states[0].width as int,
            states[0].height as int,
            points[0].0 as int,
            points[0].1 as int,
            None,
        ) == Some(b),
        !states[0].layers@[states[0].shown()].buttons@[b as int].1.active,
        forall|k: int|
            1 <= k < points.len() ==> states[0].layers@[states[0].shown()].inside(
                b as int,
                states[0].width as int,
                states[0].height as int,
                (#[trigger] points[k]).0 as int,
                points[k].1 as int,
            ),
        states[0].handled(
            &states[1],
            InputEvent::Touch {
                device,
                kind: TouchKind::Down { slot, x: points[0].0, y: points[0].1 },
            },
            outs[0],
        ),
        forall|k: int|
            1 <= k < points.len() ==> (#[trigger] states[k]).handled(
                &states[k + 1],
                InputEvent::Touch {
                    device,
                    kind: TouchKind::Motion { slot, x: points[k].0, y: points[k].1 },
                },
                outs[k],
            ),
        states[points.len() as int].handled(
            &states[points.len() as int + 1],
            InputEvent::Touch { device, kind: TouchKind::Up { slot } },
            outs[points.len() as int],
        ),
    ensures
        outs[0] == Some(
            KeyEvent {
                code: states[0].layers@[states[0].shown()].buttons@[b as int].1.action,
                pressed: true,
            },
        ),
        forall|k: int| 1 <= k < points.len() ==> (#[trigger] outs[k]) is None,
        outs[points.len() as int] == Some(
            KeyEvent {
                code: states[0].layers@[states[0].shown()].buttons@[b as int].1.action,
                pressed: false,
            },
        ),
{
    let first = states[0];
    let l = first.shown();
    let n = points.len() as int;
    assert(first.layers@[l].buttons@.len() == first.layers@[l].buttons.len());
    assert(0 <= b < first.layers@[l].buttons@.len());
    assert(states[0].accepts_touch(device));
    assert(holding(states[1], first, slot, l, b as int));
    lemma_tap_holds(states, outs, points, device, slot, l, b as int, n);
    assert(holding(states[n], first, slot, l, b as int));
    assert(states[n].accepts_touch(device));
}

/// A move inside the button's rectangle keeps the button held and sends
/// nothing.
proof fn lemma_hold_step(
    s: Coordinator,
    post: Coordinator,
    first: Coordinator,
    device: u64,
    slot: u32,
    l: int,
    b: int,
    x: i32,
    y: i32,
    out: Option<KeyEvent>,
)
    requires
        first.layers@.len() == 2,
        0 <= l < 2,
        0 <= b < first.layers@[l].buttons@.len(),
        holding(s, first, slot, l, b),
        s.accepts_touch(device),
        first.layers@[l].inside(b, first.width as int, first.height as int, x as int, y as int),
        s.handled(
            &post,
            InputEvent::Touch { device, kind: TouchKind::Motion { slot, x, y } },
            out,
        ),
    ensures
        holding(post, first, slot, l, b),
        out is None,
{
    let w = s.width as int;
    let h = s.height as int;
    assert(first.layers@[l].buttons@.len() == first.layers@[l].buttons.len());
    lemma_same_layout_same_rectangle(s.layers@[l], first.layers@[l], b, w, h, x as int, y as int);
    assert(s.touched(&post, device, TouchKind::Motion { slot, x, y }, out));
    assert(s.touch_moves(&post, TouchKind::Motion { slot, x, y }, out));
    assert(s.layers@[l].inside(b, w, h, x as int, y as int));
    assert(s.layers@[l].hit_spec(w, h, x as int, y as int, Some(b as usize)) is Some);
    assert(s.pressed_button(&post, l, b, true));
    let before = s.layers@[l];
    let after = post.layers@[l];
    assert(after.buttons@[b] == (before.buttons@[b].0, before.buttons@[b].1.pressed_to(true)));
    assert forall|i: int| 0 <= i < after.buttons@.len() implies (#[trigger] after.buttons@[i]).0
        == first.layers@[l].buttons@[i].0 by {
        assert(before.buttons@[i].0 == first.layers@[l].buttons@[i].0);
    }
}

/// Through the moves of a tap the button stays held and nothing is sent.
proof fn lemma_tap_holds(
    states: Seq<Coordinator>,
    outs: Seq<Option<KeyEvent>>,
    points: Seq<(i32, i32)>,
    device: u64,
    slot: u32,
    l: int,
    b: int,
    upto: int,
)
    requires
        1 <= upto <= points.len(),
        states.len() == points.len() + 2,
        outs.len() == points.len() + 1,
        states[0].layers@.len() == 2,
        0 <= l < 2,
        0 <= b < states[0].layers@[l].buttons@.len(),
        forall|k: int| 0 <= k <= points.len() ==> (#[trigger] states[k]).accepts_touch(device),
        holding(states[1], states[0], slot, l, b),
        forall|k: int|
            1 <= k < points.len() ==> states[0].layers@[l].inside(
                b,
                states[0].width as int,
                states[0].height as int,
                (#[trigger] points[k]).0 as int,
                points[k].1 as int,
            ),
        forall|k: int|
            1 <= k < points.len() ==> (#[trigger] states[k]).handled(
                &states[k + 1],
                InputEvent::Touch {
                    device,
                    kind: TouchKind::Motion { slot, x: points[k].0, y: points[k].1 },
                },
                outs[k],
            ),
    ensures
        holding(states[upto], states[0], slot, l, b),
        forall|k: int| 1 <= k < upto ==> (#[trigger] outs[k]) is None,
    decreases upto,
{
    if upto > 1 {
        lemma_tap_holds(states, outs, points, device, slot, l, b, upto - 1);
        let k = upto - 1;
        assert(states[k].accepts_touch(device));
        assert(states[0].layers@[l].inside(
            b,
            states[0].width as int,
            states[0].height as int,
            points[k].0 as int,
            points[k].1 as int,
        ));
        lemma_hold_step(
            states[k],
            states[k + 1],
            states[0],
            device,
            slot,
            l,
            b,
            points[k].0,
            points[k].1,
            outs[k],
        );
    }
}

/// Layers that are laid out alike have the same rectangles.
pub proof fn lemma_same_layout_same_rectangle(
    a: FunctionLayer,
    b: FunctionLayer,
    i: int,
    width: int,
    height: int,
    x: int,
    y: int,
)
    requires
        same_layout(a, b),
        0 <= i < a.buttons@.len(),
    ensures
        a.inside(i, width, height, x, y) == b.inside(i, width, height, x, y),
{
    assert(a.buttons@[i].0 == b.buttons@[i].0);
    if i + 1 < a.buttons@.len() {
        assert(a.buttons@[i + 1].0 == b.buttons@[i + 1].0);
    }
}

} // verus!
