//! One row of buttons: its layout in virtual units, hit-testing, and the
//! plan of what to repaint.

use vstd::prelude::*;
use crate::arith::{div_floor, lemma_floor_at_least, lemma_floor_below, lemma_floor_bounds, product};
use crate::config::{ButtonConfig, Config, ConfigError};
use crate::pixel_shift::{PIXEL_SHIFT_WIDTH_PX, SUBPIXEL_STEPS};

verus! {

/// Gap between two neighbouring layout units, in pixels.
pub const BUTTON_SPACING_PX: i32 = 16;

/// Touch units per pixel: touch positions are counted in this fraction of
/// a pixel.
pub const TOUCH_UNITS: i32 = 256;

/// Edge of an icon, in pixels.
pub const ICON_SIZE: i32 = 48;

/// Radius of a button's rounded corners, in pixels.
pub const CORNER_RADIUS_PX: i32 = 8;

/// What a button shows.
pub enum ButtonImage {
    Text(String),
    /// An icon by name, looked up in `theme` or, without one, in the fixed
    /// icon directories.
    Icon { name: String, theme: Option<String> },
}

pub struct Button {
    pub image: ButtonImage,
    /// Whether the button has to be repainted.
    pub changed: bool,
    /// Whether the button is held down.
    pub active: bool,
    /// Code of the key that the button sends.
    pub action: u16,
}

/// A key going down or up.
#[derive(Clone, Copy, PartialEq, Eq, Structural, Debug)]
pub struct KeyEvent {
    pub code: u16,
    pub pressed: bool,
}

/// One record as the virtual input device takes it.
#[derive(Clone, Copy, PartialEq, Eq, Structural, Debug)]
pub struct RawEvent {
    pub kind: u16,
    pub code: u16,
    pub value: i32,
}

/// Number of `input_linux::EventKind::Key`, which the crate takes from the
/// kernel's `EV_KEY`.
#[verifier::external_body]
fn key_event_kind() -> (kind: u16)
    ensures
        kind == 1,
{
    input_linux::EventKind::Key as u16
}

/// Number of `input_linux::EventKind::Synchronize`, which the crate takes
/// from the kernel's `EV_SYN`.
#[verifier::external_body]
fn synchronize_event_kind() -> (kind: u16)
    ensures
        kind == 0,
{
    input_linux::EventKind::Synchronize as u16
}

/// Number of `input_linux::SynchronizeKind::Report`, which the crate takes
/// from the kernel's `SYN_REPORT`.
#[verifier::external_body]
fn synchronize_report_code() -> (code: u16)
    ensures
        code == 0,
{
    input_linux::SynchronizeKind::Report as u16
}

/// The record for one event, stamped with time zero.
pub fn emit(kind: u16, code: u16, value: i32) -> (ev: RawEvent)
    ensures
        ev == (RawEvent { kind, code, value }),
{
    RawEvent { kind, code, value }
}

/// The two records that report a key's new state: the key itself, then the
/// synchronisation report that closes the packet.
pub fn toggle_key(code: u16, value: i32) -> (evs: (RawEvent, RawEvent))
    ensures
        evs.0 == (RawEvent { kind: 1, code, value }),
        evs.1 == (RawEvent { kind: 0, code: 0, value: 0 }),
{
    (
        emit(key_event_kind(), code, value),
        emit(synchronize_event_kind(), synchronize_report_code(), 0),
    )
}

impl KeyEvent {
    /// The records to write for this event.
    pub fn records(&self) -> (evs: (RawEvent, RawEvent))
        ensures
            evs.0 == (RawEvent {
                kind: 1,
                code: self.code,
                value: if self.pressed {
                    1i32
                } else {
                    0i32
                },
            }),
            evs.1 == (RawEvent { kind: 0, code: 0, value: 0 }),
    {
        toggle_key(
            self.code,
            if self.pressed {
                1
            } else {
                0
            },
        )
    }
}

impl Button {
    /// The button after `set_active(pressed)`.
    pub open spec fn pressed_to(self, pressed: bool) -> Button {
        if self.active == pressed {
            self
        } else {
            Button { active: pressed, changed: true, ..self }
        }
    }

    /// The key event that `set_active(pressed)` gives rise to.
    pub open spec fn emitted(self, pressed: bool) -> Option<KeyEvent> {
        if self.active == pressed {
            None
        } else {
            Some(KeyEvent { code: self.action, pressed })
        }
    }

    /// The button for a configured one: its text where it has one, else its
    /// icon.
    pub open spec fn of_config(cfg: ButtonConfig) -> Result<Button, ConfigError> {
        match (cfg.text, cfg.icon) {
            (Some(text), _) => Ok(
                Button {
                    image: ButtonImage::Text(text),
                    changed: false,
                    active: false,
                    action: cfg.action,
                },
            ),
            (None, Some(name)) => Ok(
                Button {
                    image: ButtonImage::Icon { name, theme: cfg.theme },
                    changed: false,
                    active: false,
                    action: cfg.action,
                },
            ),
            (None, None) => Err(ConfigError::ButtonWithoutImage),
        }
    }

    pub fn with_config(cfg: &ButtonConfig) -> (res: Result<Button, ConfigError>)
        ensures
            res == Button::of_config(*cfg),
    {
        match &cfg.text {
            Some(text) => Ok(Button::new_text(text.clone(), cfg.action)),
            None => match &cfg.icon {
                Some(icon) => {
                    let theme = match &cfg.theme {
                        Some(t) => Some(t.clone()),
                        None => None,
                    };
                    Ok(Button::new_icon(icon.clone(), theme, cfg.action))
                },
                None => Err(ConfigError::ButtonWithoutImage),
            },
        }
    }

    pub fn new_text(text: String, action: u16) -> (b: Button)
        ensures
            b == (Button { image: ButtonImage::Text(text), changed: false, active: false, action }),
    {
        Button { action, active: false, changed: false, image: ButtonImage::Text(text) }
    }

    pub fn new_icon(name: String, theme: Option<String>, action: u16) -> (b: Button)
        ensures
            b == (Button {
                image: ButtonImage::Icon { name, theme },
                changed: false,
                active: false,
                action,
            }),
    {
        Button { action, image: ButtonImage::Icon { name, theme }, active: false, changed: false }
    }

    /// Presses or releases the button. A call that changes nothing does
    /// nothing; one that changes the state marks the button for repainting
    /// and returns the key event to send.
    pub fn set_active(&mut self, active: bool) -> (ev: Option<KeyEvent>)
        ensures
            *final(self) == old(self).pressed_to(active),
            ev == old(self).emitted(active),
    {
        if self.active != active {
            self.active = active;
            self.changed = true;
            Some(KeyEvent { code: self.action, pressed: active })
        } else {
            None
        }
    }
}

/// Pressing or releasing twice in a row sends one event: after
/// `set_active(pressed)`, a second `set_active(pressed)` sends nothing and
/// leaves the button as it is.
pub proof fn lemma_set_active_idempotent(b: Button, pressed: bool)
    ensures
        b.pressed_to(pressed).emitted(pressed) == None::<KeyEvent>,
        b.pressed_to(pressed).pressed_to(pressed) == b.pressed_to(pressed),
{
}

/// One row of buttons.
pub struct FunctionLayer {
    /// Each button with the layout unit at which it starts, left to right.
    pub buttons: Vec<(usize, Button)>,
    /// Sum of the buttons' stretches: the width of the row in layout units.
    pub virtual_button_count: usize,
}

/// The stretch of a configured button: what the settings say, but at least
/// one unit.
pub open spec fn stretch_of_config(cfg: ButtonConfig) -> int {
    match cfg.stretch {
        Some(s) => if s < 1 {
            1
        } else {
            s as int
        },
        None => 1,
    }
}

/// Units taken by the first `k` configured buttons.
pub open spec fn units_before(cfg: Seq<ButtonConfig>, k: int) -> int
    decreases k,
{
    if k <= 0 {
        0
    } else {
        units_before(cfg, k - 1) + stretch_of_config(cfg[k - 1])
    }
}

/// Why no layer can be made of `cfg`, if anything stands against it: no
/// button, a button without image, or a width that `usize` does not hold.
pub open spec fn layer_fault(cfg: Seq<ButtonConfig>) -> Option<ConfigError> {
    if cfg.len() == 0 {
        Some(ConfigError::EmptyLayer)
    } else if exists|i: int| 0 <= i < cfg.len() && (#[trigger] Button::of_config(cfg[i])).is_err() {
        Some(ConfigError::ButtonWithoutImage)
    } else if units_before(cfg, cfg.len() as int) > usize::MAX {
        Some(ConfigError::LayerTooWide)
    } else {
        None
    }
}

/// The column of layout units that holds the horizontal position `x`, in
/// touch units, on a strip `width` pixels wide and `n` units across.
pub open spec fn column(x: int, width: int, n: int) -> int {
    if x <= 0 || width <= 0 {
        0
    } else {
        (x * n) / (TOUCH_UNITS * width)
    }
}

/// Left edge, in pixels, of a button that starts at unit `start`, where `n`
/// units share `avail` pixels: `floor(start * (unit_width + spacing))`.
pub open spec fn left_edge(start: int, avail: int, n: int) -> int {
    (start * (avail + BUTTON_SPACING_PX)) / n
}

/// `n` times the width of one unit: what is left of `avail` pixels once the
/// `n - 1` gaps are taken out.
pub open spec fn unit_width_num(avail: int, n: int) -> int {
    avail - BUTTON_SPACING_PX * (n - 1)
}

/// `n` times the width of a button of `stretch` units:
/// `unit_width * stretch + spacing * (stretch - 1)`.
pub open spec fn width_num(stretch: int, avail: int, n: int) -> int {
    stretch * unit_width_num(avail, n) + n * (BUTTON_SPACING_PX * (stretch - 1))
}

/// How a button's box is filled.
#[derive(Clone, Copy, PartialEq, Eq, Structural, Debug)]
pub enum ButtonTone {
    /// The button is held down.
    Active,
    /// The button is at rest and outlines are shown.
    Outlined,
    /// The button is at rest and its box is painted like the background.
    Background,
}

/// One button to paint.
#[derive(Clone, Copy, PartialEq, Eq, Structural, Debug)]
pub struct ButtonDraw {
    /// The button's place in its layer.
    pub index: usize,
    /// Left edge of the box, pixel shift included, in animation ticks
    /// (`SUBPIXEL_STEPS` per pixel).
    pub left: i64,
    /// Width of the box in pixels, rounded up.
    pub width: i64,
    pub tone: ButtonTone,
}

/// Half of `num`, rounded to the nearest whole number, a half away from
/// zero.
pub open spec fn round_half(num: int) -> int {
    if num >= 0 {
        (num + 1) / 2
    } else {
        num / 2
    }
}

impl ButtonDraw {
    /// Left edge of an icon centred in the box, in animation ticks: the
    /// box's edge, plus half of what the box is wider than the icon, rounded
    /// to whole pixels.
    pub open spec fn icon_left(self) -> int {
        self.left + SUBPIXEL_STEPS * round_half(self.width - ICON_SIZE)
    }

    /// Top edge of an icon centred on a strip `height` pixels high and
    /// shifted by `y_shift` ticks, in animation ticks.
    pub open spec fn icon_top(height: u16, y_shift: i32) -> int {
        y_shift + SUBPIXEL_STEPS * round_half(height - ICON_SIZE)
    }

    /// Where an icon is painted in this box, as `(left, top)` in animation
    /// ticks.
    pub fn icon_origin(&self, height: u16, y_shift: i32) -> (at: (i128, i128))
        ensures
            at.0 == self.icon_left(),
            at.1 == Self::icon_top(height, y_shift),
    {
        let spare_x: i128 = self.width as i128 - ICON_SIZE as i128;
        let half_x: i128 = if spare_x >= 0 {
            (spare_x + 1) / 2
        } else {
            -((1 - spare_x) / 2)
        };
        let spare_y: i128 = height as i128 - ICON_SIZE as i128;
        let half_y: i128 = if spare_y >= 0 {
            (spare_y + 1) / 2
        } else {
            -((1 - spare_y) / 2)
        };
        (
            self.left as i128 + SUBPIXEL_STEPS as i128 * half_x,
            y_shift as i128 + SUBPIXEL_STEPS as i128 * half_y,
        )
    }
}

/// A region of the strip that was repainted, in device pixels.
#[derive(Clone, Copy, PartialEq, Eq, Structural, Debug)]
pub struct DirtyRect {
    pub top: u16,
    pub left: u16,
    pub bottom: u16,
    pub right: u16,
}

/// What one frame repaints.
pub struct DrawPlan {
    /// Whether the whole surface is first painted with the background. Where
    /// it is not, each button's footprint is erased before it is painted.
    pub clear: bool,
    /// The buttons to paint, left to right.
    pub buttons: Vec<ButtonDraw>,
    /// Vertical shift of the buttons' content, in animation ticks.
    pub y_shift: i32,
    /// The regions to hand to the display.
    pub regions: Vec<DirtyRect>,
}

/// Pixels kept free for the sweep of the pixel shift.
pub open spec fn shift_reserve(shifting: bool) -> int {
    if shifting {
        PIXEL_SHIFT_WIDTH_PX as int
    } else {
        0
    }
}

/// Pixels that the buttons share on a strip `width` wide.
pub open spec fn available(width: int, reserve: int) -> int {
    if width >= reserve {
        width - reserve
    } else {
        0
    }
}

/// Width in pixels of a button of `stretch` units, rounded up; a layout
/// that leaves a button no room gives it none.
pub open spec fn width_px(stretch: int, avail: int, n: int) -> int {
    let w = width_num(stretch, avail, n);
    if w <= 0 {
        0
    } else {
        (w + n - 1) / n
    }
}

/// `v` cut to what a device coordinate holds.
pub open spec fn clamp_u16(v: int) -> u16 {
    if v < 0 {
        0
    } else if v > 0xffff {
        0xffff
    } else {
        v as u16
    }
}

pub open spec fn tone_of(active: bool, outlines: bool) -> ButtonTone {
    if active {
        ButtonTone::Active
    } else if outlines {
        ButtonTone::Outlined
    } else {
        ButtonTone::Background
    }
}

/// The region that painting `d` touches on a strip `height` pixels high: the
/// box from 15% to 85% of the height, widened by the corner radius, over the
/// whole pixels that the box reaches.
pub open spec fn region_of(d: ButtonDraw, height: int) -> DirtyRect {
    DirtyRect {
        top: clamp_u16(height - (85 * height) / 100 - CORNER_RADIUS_PX),
        left: clamp_u16((d.left as int) / (SUBPIXEL_STEPS as int)),
        bottom: clamp_u16(height - (15 * height) / 100 + CORNER_RADIUS_PX),
        right: clamp_u16((d.left + SUBPIXEL_STEPS - 1) / (SUBPIXEL_STEPS as int) + d.width),
    }
}

/// The whole strip.
pub open spec fn full_region(width: int, height: int) -> DirtyRect {
    DirtyRect { top: 0, left: 0, bottom: clamp_u16(height), right: clamp_u16(width) }
}

/// `v` cut to what a device coordinate holds.
pub fn clamp_to_u16(v: i64) -> (r: u16)
    ensures
        r == clamp_u16(v as int),
{
    if v < 0 {
        0
    } else if v > 0xffff {
        0xffff
    } else {
        v as u16
    }
}

/// The pixel that holds position `ticks`: the floor of `ticks` over the
/// ticks per pixel, for positions left of the strip too.
fn px_floor(ticks: i64) -> (r: i64)
    requires
        -0x1_0000_0000 <= ticks <= 0x1_0000_0000_0000,
    ensures
        r == (ticks as int) / (SUBPIXEL_STEPS as int),
{
    let lift: i64 = 0x1000_0000;
    (ticks + SUBPIXEL_STEPS * lift) / SUBPIXEL_STEPS - lift
}

/// The width of a button in closed form: `n` times the width is the
/// button's share of the strip and of one more gap, less the `n` gaps'
/// share.
pub proof fn lemma_width_num_closed_form(stretch: int, avail: int, n: int)
    ensures
        width_num(stretch, avail, n) == stretch * (avail + BUTTON_SPACING_PX) - BUTTON_SPACING_PX
            * n,
{
    assert(stretch * (avail - 16 * (n - 1)) + n * (16 * (stretch - 1)) == stretch * (avail + 16)
        - 16 * n) by (nonlinear_arith);
}

/// Left edge, in pixels, of a button that starts at unit `start`.
fn left_edge_px(start: usize, avail: u16, n: usize) -> (left: i128)
    requires
        start < n,
    ensures
        left == left_edge(start as int, avail as int, n as int),
        0 <= left <= avail + BUTTON_SPACING_PX,
{
    let pitch: i128 = avail as i128 + BUTTON_SPACING_PX as i128;
    let reach: i128 = product(start as i128, pitch);
    proof {
        assert(0 <= reach < (pitch + 1) * n) by (nonlinear_arith)
            requires
                reach == start * pitch,
                0 <= start < n,
                0 <= pitch,
        ;
        lemma_floor_below(reach as int, n as int, pitch + 1);
    }
    div_floor(reach, n as i128)
}

/// `n` times the width of a button of `stretch` units.
fn width_times_units(stretch: usize, avail: u16, n: usize) -> (w: i128)
    requires
        1 <= stretch <= n,
    ensures
        w == width_num(stretch as int, avail as int, n as int),
        w + n <= (avail + BUTTON_SPACING_PX) * n,
        -0x10_0000_0000_0000_0000 <= w <= 0x2_0000_0000_0000_0000_0000,
{
    let pitch: i128 = avail as i128 + BUTTON_SPACING_PX as i128;
    let share: i128 = product(stretch as i128, pitch);
    proof {
        lemma_width_num_closed_form(stretch as int, avail as int, n as int);
        assert(0 <= share <= pitch * n && share <= 0x2_0000_0000_0000_0000_0000)
            by (nonlinear_arith)
            requires
                share == stretch * pitch,
                1 <= stretch <= n,
                n <= 0x1_0000_0000_0000_0000,
                0 <= pitch <= 0x2_0000,
        ;
    }
    share - BUTTON_SPACING_PX as i128 * (n as i128)
}

/// Width in pixels of a button of `stretch` units, rounded up.
fn button_width_px(stretch: usize, avail: u16, n: usize) -> (w: i128)
    requires
        1 <= stretch <= n,
    ensures
        w == width_px(stretch as int, avail as int, n as int),
        0 <= w <= avail + BUTTON_SPACING_PX,
{
    let width_n: i128 = width_times_units(stretch, avail, n);
    if width_n <= 0 {
        0
    } else {
        proof {
            lemma_floor_below(width_n + n - 1, n as int, avail + BUTTON_SPACING_PX);
        }
        div_floor(width_n + n as i128 - 1, n as i128)
    }
}

proof fn lemma_units_grow(cfg: Seq<ButtonConfig>, i: int, j: int)
    requires
        0 <= i <= j,
    ensures
        units_before(cfg, i) <= units_before(cfg, j),
        i < j ==> units_before(cfg, i) < units_before(cfg, j),
    decreases j - i,
{
    if i < j {
        lemma_units_grow(cfg, i, j - 1);
    }
}

impl FunctionLayer {
    /// Unit at which button `i` starts.
    pub open spec fn start_of(&self, i: int) -> int {
        self.buttons@[i].0 as int
    }

    /// Unit at which button `i` ends: the start of its right neighbour, or
    /// the end of the row.
    pub open spec fn end_of(&self, i: int) -> int {
        if i + 1 < self.buttons@.len() {
            self.buttons@[i + 1].0 as int
        } else {
            self.virtual_button_count as int
        }
    }

    /// Units that button `i` spans.
    pub open spec fn stretch_of(&self, i: int) -> int {
        self.end_of(i) - self.start_of(i)
    }

    /// A layer has a button, starts at unit zero, and gives every button at
    /// least one unit.
    pub open spec fn wf(&self) -> bool {
        &&& self.buttons@.len() >= 1
        &&& self.buttons@[0].0 == 0
        &&& forall|i: int|
            0 <= i < self.buttons@.len() ==> self.start_of(i) < #[trigger] self.end_of(i)
    }

    /// The layer is the one that `cfg` describes: its buttons in order, each
    /// at rest and starting where the one before it ends.
    pub open spec fn is_layer_of(&self, cfg: Seq<ButtonConfig>) -> bool {
        &&& self.wf()
        &&& self.buttons@.len() == cfg.len()
        &&& self.virtual_button_count == units_before(cfg, cfg.len() as int)
        &&& forall|i: int|
            0 <= i < cfg.len() ==> {
                &&& (#[trigger] self.buttons@[i]).0 == units_before(cfg, i)
                &&& Ok::<Button, ConfigError>(self.buttons@[i].1) == Button::of_config(cfg[i])
            }
    }

    /// Button `i` is the one whose units include column `col`.
    pub open spec fn owns(&self, i: int, col: int) -> bool {
        &&& 0 <= i < self.buttons@.len()
        &&& self.start_of(i) <= col
        &&& (i + 1 < self.buttons@.len() ==> col < self.start_of(i + 1))
    }

    /// The button with the largest start that is at most `col`.
    pub open spec fn owner(&self, col: int) -> int {
        choose|i: int| self.owns(i, col)
    }

    /// The point `(x, y)`, in touch units, lies in the rectangle of button
    /// `i`, which leaves out a tenth of the strip's height at the top and at
    /// the bottom.
    pub open spec fn inside(&self, i: int, width: int, height: int, x: int, y: int) -> bool {
        let n = self.virtual_button_count as int;
        let left = TOUCH_UNITS * left_edge(self.start_of(i), width, n);
        &&& left <= x
        &&& n * (x - left) <= TOUCH_UNITS * width_num(self.stretch_of(i), width, n)
        &&& TOUCH_UNITS * height <= 10 * y <= 9 * (TOUCH_UNITS * height)
    }

    /// The button that a touch at `(x, y)`, in touch units, hits. With a
    /// hint only that button is tested; without one, the owner of the column
    /// under `x`.
    pub open spec fn hit_spec(&self, width: int, height: int, x: int, y: int, hint: Option<usize>)
        -> Option<usize> {
        let i = match hint {
            Some(h) => h as int,
            None => self.owner(column(x, width, self.virtual_button_count as int)),
        };
        if 0 <= i < self.buttons@.len() && self.inside(i, width, height, x, y) {
            Some(i as usize)
        } else {
            None
        }
    }

    /// How button `i` is painted on a strip `width` pixels wide.
    pub open spec fn draw_of(
        &self,
        i: int,
        width: int,
        outlines: bool,
        shifting: bool,
        shift_x: int,
    ) -> ButtonDraw {
        let n = self.virtual_button_count as int;
        let reserve = shift_reserve(shifting);
        let avail = available(width, reserve);
        ButtonDraw {
            index: i as usize,
            left: (SUBPIXEL_STEPS * (left_edge(self.start_of(i), avail, n) + reserve / 2)
                + shift_x) as i64,
            width: width_px(self.stretch_of(i), avail, n) as i64,
            tone: tone_of(self.buttons@[i].1.active, outlines),
        }
    }

    /// Whether a frame paints button `i`: a complete one paints all, another
    /// those that changed.
    pub open spec fn repaints(&self, i: int, complete: bool) -> bool {
        complete || self.buttons@[i].1.changed
    }

    /// What a frame paints of the first `k` buttons, left to right.
    pub open spec fn draws_upto(
        &self,
        k: int,
        complete: bool,
        width: int,
        outlines: bool,
        shifting: bool,
        shift_x: int,
    ) -> Seq<ButtonDraw>
        decreases k,
    {
        if k <= 0 {
            Seq::empty()
        } else {
            let rest = self.draws_upto(k - 1, complete, width, outlines, shifting, shift_x);
            if self.repaints(k - 1, complete) {
                rest.push(self.draw_of(k - 1, width, outlines, shifting, shift_x))
            } else {
                rest
            }
        }
    }

    /// `plan` is the frame of this layer: the buttons to paint with their
    /// boxes, and the regions that painting them touches, which for a complete
    /// frame is the whole strip.
    pub open spec fn planned(
        &self,
        plan: &DrawPlan,
        cfg: &Config,
        width: u16,
        height: u16,
        pixel_shift: (i32, i32),
        complete: bool,
    ) -> bool {
        &&& plan.clear == complete
        &&& plan.y_shift == pixel_shift.1
        &&& plan.buttons@ == self.draws_upto(
            self.buttons@.len() as int,
            complete,
            width as int,
            cfg.show_button_outlines,
            cfg.enable_pixel_shift,
            pixel_shift.0 as int,
        )
        &&& complete ==> plan.regions@ == seq![full_region(width as int, height as int)]
        &&& !complete ==> plan.regions@ == plan.buttons@.map_values(
            |d: ButtonDraw| region_of(d, height as int),
        )
    }

    /// Whether any button waits to be repainted.
    pub open spec fn has_changed(&self) -> bool {
        exists|i: int| 0 <= i < self.buttons@.len() && (#[trigger] self.buttons@[i]).1.changed
    }

    /// The layer with every button marked as painted.
    pub open spec fn painted(&self, after: &FunctionLayer) -> bool {
        &&& after.virtual_button_count == self.virtual_button_count
        &&& after.buttons@.len() == self.buttons@.len()
        &&& forall|i: int|
            0 <= i < self.buttons@.len() ==> #[trigger] after.buttons@[i] == (
                self.buttons@[i].0,
                Button { changed: false, ..self.buttons@[i].1 },
            )
    }

    /// Starts grow from left to right.
    pub proof fn lemma_starts_grow(&self, i: int, j: int)
        requires
            self.wf(),
            0 <= i <= j < self.buttons@.len(),
        ensures
            self.start_of(i) <= self.start_of(j),
        decreases j - i,
    {
        if i < j {
            self.lemma_starts_grow(i, j - 1);
            assert(self.start_of(j - 1) < self.end_of(j - 1));
        }
    }

    /// A layer is at least as many units wide as it has buttons.
    pub proof fn lemma_units_cover_buttons(&self)
        requires
            self.wf(),
        ensures
            self.virtual_button_count >= self.buttons@.len(),
    {
        let last = self.buttons@.len() - 1;
        self.lemma_start_at_least_place(last);
        assert(self.start_of(last) < self.end_of(last));
    }

    /// A button starts no earlier than at the unit of its place in the row.
    pub proof fn lemma_start_at_least_place(&self, i: int)
        requires
            self.wf(),
            0 <= i < self.buttons@.len(),
        ensures
            self.start_of(i) >= i,
        decreases i,
    {
        if i > 0 {
            self.lemma_start_at_least_place(i - 1);
            assert(self.start_of(i - 1) < self.end_of(i - 1));
        }
    }

    /// A column has one owner.
    pub proof fn lemma_owner_unique(&self, a: int, b: int, col: int)
        requires
            self.wf(),
            self.owns(a, col),
            self.owns(b, col),
        ensures
            a == b,
    {
        if a < b {
            self.lemma_starts_grow(a + 1, b);
        } else if b < a {
            self.lemma_starts_grow(b + 1, a);
        }
    }

    /// The layer for a list of configured buttons, each starting where the
    /// one before it ends. A stretch below one counts as one.
    pub fn with_config(cfg: Vec<ButtonConfig>) -> (res: Result<FunctionLayer, ConfigError>)
        ensures
            match res {
                Ok(layer) => layer_fault(cfg@) is None && layer.is_layer_of(cfg@),
                Err(e) => layer_fault(cfg@) == Some(e),
            },
    {
        if cfg.len() == 0 {
            return Err(ConfigError::EmptyLayer);
        }
        let mut k: usize = 0;
        while k < cfg.len()
            invariant
                k <= cfg.len(),
                forall|i: int| 0 <= i < k ==> (#[trigger] Button::of_config(cfg@[i])).is_ok(),
            decreases cfg.len() - k,
        {
            if cfg[k].text.is_none() && cfg[k].icon.is_none() {
                assert(Button::of_config(cfg@[k as int]).is_err());
                return Err(ConfigError::ButtonWithoutImage);
            }
            k = k + 1;
        }
        let mut buttons: Vec<(usize, Button)> = Vec::new();
        let mut units: usize = 0;
        let mut i: usize = 0;
        while i < cfg.len()
            invariant
                i <= cfg.len(),
                cfg@.len() >= 1,
                forall|j: int| 0 <= j < cfg@.len() ==> (#[trigger] Button::of_config(cfg@[j])).is_ok(),
                buttons@.len() == i,
                units == units_before(cfg@, i as int),
                forall|j: int|
                    0 <= j < i ==> {
                        &&& (#[trigger] buttons@[j]).0 == units_before(cfg@, j)
                        &&& Ok::<Button, ConfigError>(buttons@[j].1) == Button::of_config(cfg@[j])
                    },
            decreases cfg.len() - i,
        {
            let stretch: usize = match cfg[i].stretch {
                Some(s) => if s < 1 {
                    1
                } else {
                    s
                },
                None => 1,
            };
            if stretch > usize::MAX - units {
                proof {
                    lemma_units_grow(cfg@, i as int + 1, cfg@.len() as int);
                }
                return Err(ConfigError::LayerTooWide);
            }
            match Button::with_config(&cfg[i]) {
                Ok(button) => {
                    buttons.push((units, button));
                },
                Err(e) => {
                    assert(Button::of_config(cfg@[i as int]).is_ok());
                    return Err(e);
                },
            }
            units = units + stretch;
            i = i + 1;
        }
        let layer = FunctionLayer { buttons, virtual_button_count: units };
        proof {
            assert forall|j: int| 0 <= j < layer.buttons@.len() implies layer.start_of(j)
                < #[trigger] layer.end_of(j) by {
                lemma_units_grow(cfg@, j, j + 1);
                if j + 1 < layer.buttons@.len() {
                    assert(layer.buttons@[j + 1].0 == units_before(cfg@, j + 1));
                }
                assert(layer.buttons@[j].0 == units_before(cfg@, j));
            }
            assert(layer.buttons@[0].0 == units_before(cfg@, 0));
        }
        Ok(layer)
    }

    /// Which button a touch at `(x, y)` hits on a strip of `width` by
    /// `height` pixels, if any. The position is in touch units, `TOUCH_UNITS`
    /// per pixel.
    pub fn hit(&self, width: u16, height: u16, x: i32, y: i32, hint: Option<usize>) -> (res: Option<
        usize,
    >)
        requires
            self.wf(),
        ensures
            res == self.hit_spec(width as int, height as int, x as int, y as int, hint),
    {
        let n: usize = self.virtual_button_count;
        let len = self.buttons.len();
        assert(self.start_of(len - 1) < self.end_of(len - 1));
        let i: usize = match hint {
            Some(h) => h,
            None => {
                let col: i128 = if x <= 0 || width == 0 {
                    0
                } else {
                    let reach = product(n as i128, x as i128);
                    assert(reach == x * n && reach >= 0) by (nonlinear_arith)
                        requires
                            reach == n * x,
                            n >= 0,
                            x >= 0,
                    ;
                    div_floor(reach, TOUCH_UNITS as i128 * width as i128)
                };
                let mut j: usize = 1;
                while j < len && self.buttons[j].0 as i128 <= col
                    invariant
                        len == self.buttons@.len(),
                        1 <= j <= len,
                        self.start_of(j - 1) <= col,
                    decreases len - j,
                {
                    j = j + 1;
                }
                proof {
                    assert(self.owns(j - 1, col as int));
                    self.lemma_owner_unique(j - 1, self.owner(col as int), col as int);
                }
                j - 1
            },
        };
        if i >= len {
            return None;
        }
        let start: usize = self.buttons[i].0;
        let end: usize = if i + 1 < len {
            self.buttons[i + 1].0
        } else {
            n
        };
        proof {
            assert(self.start_of(i as int) < self.end_of(i as int));
            if i + 1 < len {
                self.lemma_starts_grow(i as int + 1, len - 1);
            }
        }
        let left: i128 = TOUCH_UNITS as i128 * left_edge_px(start, width, n);
        let width_n: i128 = TOUCH_UNITS as i128 * width_times_units(end - start, width, n);
        if (x as i128) < left {
            return None;
        }
        if product(n as i128, x as i128 - left) > width_n {
            return None;
        }
        let y10: i64 = 10 * (y as i64);
        let h: i64 = TOUCH_UNITS as i64 * height as i64;
        if y10 < h || y10 > 9 * h {
            return None;
        }
        Some(i)
    }

    /// Whether any button changed since the last frame.
    pub fn any_changed(&self) -> (r: bool)
        ensures
            r == self.has_changed(),
    {
        let mut i: usize = 0;
        while i < self.buttons.len()
            invariant
                i <= self.buttons@.len(),
                forall|j: int| 0 <= j < i ==> !(#[trigger] self.buttons@[j]).1.changed,
            decreases self.buttons.len() - i,
        {
            if self.buttons[i].1.changed {
                return true;
            }
            i = i + 1;
        }
        false
    }

    /// Plans one frame and marks what it paints as painted. A complete
    /// frame clears the surface and paints every button; another paints the
    /// buttons that changed since the last frame, each over its erased
    /// footprint, and reports one region per button.
    pub fn draw(
        &mut self,
        cfg: &Config,
        width: u16,
        height: u16,
        pixel_shift: (i32, i32),
        complete_redraw: bool,
    ) -> (plan: DrawPlan)
        requires
            old(self).wf(),
        ensures
            final(self).wf(),
            old(self).painted(final(self)),
            old(self).planned(&plan, cfg, width, height, pixel_shift, complete_redraw),
    {
        let n: usize = self.virtual_button_count;
        let len = self.buttons.len();
        assert(self.start_of(len - 1) < self.end_of(len - 1));
        let reserve: u16 = if cfg.enable_pixel_shift {
            PIXEL_SHIFT_WIDTH_PX as u16
        } else {
            0
        };
        let avail: u16 = if width >= reserve {
            width - reserve
        } else {
            0
        };
        let h: i64 = height as i64;
        let top: u16 = clamp_to_u16(h - (85 * h) / 100 - CORNER_RADIUS_PX as i64);
        let bottom: u16 = clamp_to_u16(h - (15 * h) / 100 + CORNER_RADIUS_PX as i64);
        let mut buttons: Vec<ButtonDraw> = Vec::new();
        let mut regions: Vec<DirtyRect> = Vec::new();
        if complete_redraw {
            regions.push(DirtyRect { top: 0, left: 0, bottom: height, right: width });
        }
        let ghost before = *self;
        let mut i: usize = 0;
        while i < len
            invariant
                i <= len,
                len == self.buttons@.len(),
                len == before.buttons@.len(),
                before.wf(),
                n == before.virtual_button_count,
                self.virtual_button_count == before.virtual_button_count,
                reserve == shift_reserve(cfg.enable_pixel_shift),
                avail == available(width as int, reserve as int),
                h == height,
                top == clamp_u16(h - (85 * h) / 100 - CORNER_RADIUS_PX),
                bottom == clamp_u16(h - (15 * h) / 100 + CORNER_RADIUS_PX),
                forall|j: int|
                    0 <= j < i ==> #[trigger] self.buttons@[j] == (
                        before.buttons@[j].0,
                        Button { changed: false, ..before.buttons@[j].1 },
                    ),
                forall|j: int| i <= j < len ==> #[trigger] self.buttons@[j] == before.buttons@[j],
                buttons@ == before.draws_upto(
                    i as int,
                    complete_redraw,
                    width as int,
                    cfg.show_button_outlines,
                    cfg.enable_pixel_shift,
                    pixel_shift.0 as int,
                ),
                complete_redraw ==> regions@ == seq![full_region(width as int, height as int)],
                !complete_redraw ==> regions@ == buttons@.map_values(
                    |d: ButtonDraw| region_of(d, height as int),
                ),
            decreases len - i,
        {
            let start: usize = self.buttons[i].0;
            let end: usize = if i + 1 < len {
                self.buttons[i + 1].0
            } else {
                n
            };
            proof {
                assert(before.start_of(i as int) < before.end_of(i as int));
                if i + 1 < len {
                    before.lemma_starts_grow(i as int + 1, len - 1);
                    assert(before.start_of(len - 1) < before.end_of(len - 1));
                }
            }
            if self.buttons[i].1.changed || complete_redraw {
                let left_px: i128 = left_edge_px(start, avail, n);
                let width_px: i128 = button_width_px(end - start, avail, n);
                let left: i128 = SUBPIXEL_STEPS as i128 * (left_px + (reserve / 2) as i128)
                    + pixel_shift.0 as i128;
                let tone = if self.buttons[i].1.active {
                    ButtonTone::Active
                } else if cfg.show_button_outlines {
                    ButtonTone::Outlined
                } else {
                    ButtonTone::Background
                };
                let d = ButtonDraw { index: i, left: left as i64, width: width_px as i64, tone };
                assert(d == before.draw_of(
                    i as int,
                    width as int,
                    cfg.show_button_outlines,
                    cfg.enable_pixel_shift,
                    pixel_shift.0 as int,
                ));
                buttons.push(d);
                if !complete_redraw {
                    let region = DirtyRect {
                        top,
                        left: clamp_to_u16(px_floor(d.left)),
                        bottom,
                        right: clamp_to_u16(px_floor(d.left + (SUBPIXEL_STEPS - 1)) + d.width),
                    };
                    assert(region == region_of(d, height as int));
                    let ghost shown = regions@;
                    regions.push(region);
                    assert(regions@ =~= buttons@.map_values(
                        |d: ButtonDraw| region_of(d, height as int),
                    ));
                }
                self.buttons[i].1.changed = false;
            }
            i = i + 1;
        }
        proof {
            assert forall|j: int| 0 <= j < len implies self.start_of(j) < #[trigger] self.end_of(
                j,
            ) by {
                assert(before.start_of(j) < before.end_of(j));
            }
        }
        DrawPlan { clear: complete_redraw, buttons, y_shift: pixel_shift.1, regions }
    }
}

/// A frame that is not complete paints nothing of buttons that have not
/// changed: where none of the first `k` has, it paints none of them.
pub proof fn lemma_unchanged_buttons_are_not_painted(
    layer: FunctionLayer,
    k: int,
    width: int,
    outlines: bool,
    shifting: bool,
    shift_x: int,
)
    requires
        0 <= k <= layer.buttons@.len(),
        forall|i: int| 0 <= i < k ==> !(#[trigger] layer.buttons@[i]).1.changed,
    ensures
        layer.draws_upto(k, false, width, outlines, shifting, shift_x) == Seq::<ButtonDraw>::empty(),
    decreases k,
{
    if k > 0 {
        lemma_unchanged_buttons_are_not_painted(layer, k - 1, width, outlines, shifting, shift_x);
        assert(!layer.buttons@[k - 1].1.changed);
    }
}

/// A hit is never outside the button that it names: the touch lies in that
/// button's rectangle and clear of the strip's top and bottom margins.
pub proof fn lemma_hit_is_inside(
    layer: FunctionLayer,
    width: int,
    height: int,
    x: int,
    y: int,
    hint: Option<usize>,
)
    requires
        layer.wf(),
        layer.hit_spec(width, height, x, y, hint) is Some,
    ensures
        layer.inside(layer.hit_spec(width, height, x, y, hint).unwrap() as int, width, height, x, y),
        hint is Some ==> layer.hit_spec(width, height, x, y, hint) == hint,
{
    assert(layer.buttons@.len() == layer.buttons.len());
}

/// On a row of at most `BUTTON_SPACING_PX` units, the columns and the
/// rectangles agree: a touch that lies in a button's rectangle hits that
/// button, in whichever of the button's columns it falls.
pub proof fn lemma_inside_is_hit(
    layer: FunctionLayer,
    i: int,
    width: int,
    height: int,
    x: int,
    y: int,
)
    requires
        layer.wf(),
        layer.virtual_button_count <= BUTTON_SPACING_PX,
        0 <= i < layer.buttons@.len(),
        0 <= width,
        layer.inside(i, width, height, x, y),
    ensures
        layer.hit_spec(width, height, x, y, None) == Some(i as usize),
{
    let n = layer.virtual_button_count as int;
    let len = layer.buttons@.len() as int;
    let s = layer.start_of(i);
    let e = layer.end_of(i);
    let st = e - s;
    let left = left_edge(s, width, n);
    let col = column(x, width, n);
    assert(len == layer.buttons.len());
    assert(s < e);
    layer.lemma_starts_grow(0, i);
    assert(layer.start_of(len - 1) < layer.end_of(len - 1));
    if i + 1 < len {
        layer.lemma_starts_grow(i + 1, len - 1);
    }
    assert(0 <= s < e <= n);
    lemma_floor_bounds(s * (width + 16), n);
    let room = n * (x - 256 * left);
    assert(room <= 256 * width_num(st, width, n));
    // The right edge: the touch is left of where the button's last column
    // ends, by the gaps that follow the button.
    assert(x * n <= 256 * (e * width - 16 * (n - e))) by (nonlinear_arith)
        requires
            room == n * (x - 256 * left),
            room <= 256 * (st * (width - 16 * (n - 1)) + n * (16 * (st - 1))),
            n * left <= s * (width + 16),
            e == s + st,
    ;
    // The left edge: the touch is at or right of where the button's first
    // column starts.
    if s >= 1 {
        assert(s * (256 * width) <= x * n) by (nonlinear_arith)
            requires
                256 * left <= x,
                s * (width + 16) < n * left + n,
                1 <= s,
                1 <= n <= 16,
        ;
    }
    if x <= 0 || width <= 0 {
        if x > 0 {
            assert(x * n > 0 && e * width == 0) by (nonlinear_arith)
                requires
                    x > 0,
                    n > 0,
                    width == 0,
            ;
        } else if s >= 1 {
            assert(s * (width + 16) >= 16) by (nonlinear_arith)
                requires
                    s >= 1,
                    width >= 0,
            ;
            assert(n * left <= 0) by (nonlinear_arith)
                requires
                    left <= 0,
                    n > 0,
            ;
        }
        assert(s == 0);
    } else {
        if s >= 1 {
            lemma_floor_at_least(x * n, 256 * width, s);
        } else {
            assert(0 * (256 * width) <= x * n) by (nonlinear_arith)
                requires
                    x > 0,
                    n > 0,
            ;
            lemma_floor_at_least(x * n, 256 * width, 0);
        }
        if i + 1 < len {
            assert(x * n < e * (256 * width)) by (nonlinear_arith)
                requires
                    x * n <= 256 * (e * width - 16 * (n - e)),
                    e < n,
            ;
            lemma_floor_below(x * n, 256 * width, e);
        }
    }
    assert(layer.owns(i, col));
    layer.lemma_owner_unique(i, layer.owner(col), col);
}

/// The left edge of a button lies on the strip's pixels or in the gap
/// after them, and is the floor that its definition says.
pub proof fn lemma_left_edge_bounds(start: int, avail: int, n: int)
    requires
        0 <= start < n,
        0 <= avail,
    ensures
        0 <= left_edge(start, avail, n) <= avail + BUTTON_SPACING_PX,
        n * left_edge(start, avail, n) <= start * (avail + BUTTON_SPACING_PX) < n * left_edge(
            start,
            avail,
            n,
        ) + n,
{
    let pitch = avail + 16;
    let reach = start * pitch;
    assert(0 <= reach < (pitch + 1) * n) by (nonlinear_arith)
        requires
            reach == start * pitch,
            0 <= start < n,
            0 <= pitch,
    ;
    lemma_floor_bounds(reach, n);
    lemma_floor_below(reach, n, pitch + 1);
    lemma_floor_at_least(reach, n, 0);
}

/// The width of a button in pixels is not negative, and `n` times it
/// exceeds `n` times the exact width by less than `n`.
pub proof fn lemma_width_px_bounds(stretch: int, avail: int, n: int)
    requires
        1 <= stretch <= n,
        0 <= avail,
    ensures
        0 <= width_px(stretch, avail, n) <= avail + BUTTON_SPACING_PX,
        width_num(stretch, avail, n) > 0 ==> n * width_px(stretch, avail, n) < width_num(
            stretch,
            avail,
            n,
        ) + n,
{
    let w = width_num(stretch, avail, n);
    let pitch = avail + 16;
    lemma_width_num_closed_form(stretch, avail, n);
    if w > 0 {
        assert(w + n - 1 < (pitch + 1) * n) by (nonlinear_arith)
            requires
                w == stretch * pitch - 16 * n,
                1 <= stretch <= n,
                0 <= pitch,
        ;
        lemma_floor_bounds(w + n - 1, n);
        lemma_floor_below(w + n - 1, n, pitch + 1);
        lemma_floor_at_least(w + n - 1, n, 0);
    }
}

/// Boxes keep apart: of two buttons of a layer, the left one's box, where
/// the layout leaves it any room, ends before the right one's begins, and so
/// do the regions that painting them touches. On a strip that has room for
/// its buttons the regions of one frame are therefore in order and do not
/// overlap.
pub proof fn lemma_boxes_keep_apart(
    layer: FunctionLayer,
    i: int,
    j: int,
    width: u16,
    height: u16,
    outlines: bool,
    shifting: bool,
    shift_x: i32,
)
    requires
        layer.wf(),
        0 <= i < j < layer.buttons@.len(),
        width_num(
            layer.stretch_of(i),
            available(width as int, shift_reserve(shifting)),
            layer.virtual_button_count as int,
        ) > 0,
    ensures
        ({
            let a = layer.draw_of(i, width as int, outlines, shifting, shift_x as int);
            let b = layer.draw_of(j, width as int, outlines, shifting, shift_x as int);
            &&& a.left + SUBPIXEL_STEPS * a.width < b.left
            &&& region_of(a, height as int).right <= region_of(b, height as int).left
        }),
{
    let n = layer.virtual_button_count as int;
    let len = layer.buttons@.len() as int;
    let reserve = shift_reserve(shifting);
    let avail = available(width as int, reserve);
    let pitch = avail + 16;
    let si = layer.start_of(i);
    let ei = layer.end_of(i);
    let sj = layer.start_of(j);
    assert(si < ei);
    layer.lemma_starts_grow(0, i);
    layer.lemma_starts_grow(i + 1, j);
    layer.lemma_starts_grow(j, len - 1);
    assert(layer.start_of(len - 1) < layer.end_of(len - 1));
    assert(0 <= si < ei <= sj < n);
    let st = ei - si;
    lemma_left_edge_bounds(si, avail, n);
    lemma_left_edge_bounds(sj, avail, n);
    lemma_width_px_bounds(st, avail, n);
    lemma_width_num_closed_form(st, avail, n);
    let li = left_edge(si, avail, n);
    let lj = left_edge(sj, avail, n);
    let wi = width_px(st, avail, n);
    let w = width_num(st, avail, n);
    assert(li + wi < lj) by (nonlinear_arith)
        requires
            n * li <= si * pitch,
            n * wi < w + n,
            w == st * pitch - 16 * n,
            sj * pitch < n * lj + n,
            si + st <= sj,
            0 <= pitch,
            0 < n,
    ;
}

/// Boxes stay on the strip: where the strip is at least as wide as the
/// reserve and the shift stays within half the reserve to either side, a
/// box that has room lies between the strip's two ends, and so does its
/// region.
pub proof fn lemma_boxes_lie_on_the_strip(
    layer: FunctionLayer,
    i: int,
    width: u16,
    height: u16,
    outlines: bool,
    shifting: bool,
    shift_x: i32,
)
    requires
        layer.wf(),
        0 <= i < layer.buttons@.len(),
        width >= shift_reserve(shifting),
        -(shift_reserve(shifting) / 2) * SUBPIXEL_STEPS <= shift_x <= (shift_reserve(shifting) / 2)
            * SUBPIXEL_STEPS,
        width_num(
            layer.stretch_of(i),
            available(width as int, shift_reserve(shifting)),
            layer.virtual_button_count as int,
        ) > 0,
    ensures
        ({
            let d = layer.draw_of(i, width as int, outlines, shifting, shift_x as int);
            let r = region_of(d, height as int);
            &&& 0 <= d.left
            &&& d.left + SUBPIXEL_STEPS * d.width <= SUBPIXEL_STEPS * width
            &&& r.left <= r.right <= width
        }),
{
    let n = layer.virtual_button_count as int;
    let len = layer.buttons@.len() as int;
    let reserve = shift_reserve(shifting);
    let avail = available(width as int, reserve);
    let pitch = avail + 16;
    let s = layer.start_of(i);
    let e = layer.end_of(i);
    assert(s < e);
    layer.lemma_starts_grow(0, i);
    if i + 1 < len {
        layer.lemma_starts_grow(i + 1, len - 1);
    }
    assert(layer.start_of(len - 1) < layer.end_of(len - 1));
    assert(0 <= s < e <= n);
    let st = e - s;
    lemma_left_edge_bounds(s, avail, n);
    lemma_width_px_bounds(st, avail, n);
    lemma_width_num_closed_form(st, avail, n);
    let left = left_edge(s, avail, n);
    let wide = width_px(st, avail, n);
    let w = width_num(st, avail, n);
    assert(left + wide <= avail) by (nonlinear_arith)
        requires
            n * left <= s * pitch,
            n * wide < w + n,
            w == st * pitch - 16 * n,
            s + st <= n,
            pitch == avail + 16,
            0 <= pitch,
            0 < n,
    ;
}

} // verus!
