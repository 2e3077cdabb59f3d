//! Built-in host-facing devices for the ZT8 machine.
//!
//! Register offsets in this module are local to their device. The machine bus
//! is responsible for assigning each device a location in the global address
//! space.
use vstd::prelude::*;

verus! {

broadcast use vstd::array::group_array_axioms;

/// Current button state. Each bit corresponds to a [`Button`].
pub const INPUT_STATE: u16 = 0x00;

/// Rising-edge button latch. Guest writes clear the bits that are set (W1C).
pub const INPUT_PRESSED: u16 = 0x01;

/// Signed pointer X coordinate, encoded as an `i8` in one byte.
pub const INPUT_POINTER_X: u16 = 0x02;

/// Signed pointer Y coordinate, encoded as an `i8` in one byte.
pub const INPUT_POINTER_Y: u16 = 0x03;

/// Low byte of the timer reload value.
pub const TIMER_RELOAD_LO: u16 = 0x00;

/// High byte of the timer reload value.
pub const TIMER_RELOAD_HI: u16 = 0x01;

/// Timer control register.
pub const TIMER_CTRL: u16 = 0x02;

/// Low byte of the timer's current count.
pub const TIMER_COUNT_LO: u16 = 0x03;

/// High byte of the timer's current count.
pub const TIMER_COUNT_HI: u16 = 0x04;

/// Enables timer counting when set in [`TIMER_CTRL`].
pub const TIMER_CTRL_ENABLE: u8 = 0x01;

/// Reloads the timer after expiry when set in [`TIMER_CTRL`].
pub const TIMER_CTRL_PERIODIC: u8 = 0x02;

/// Write-only strobe which copies the reload value into the current count.
pub const TIMER_CTRL_RESTART: u8 = 0x80;

/// Video control register.
pub const VIDEO_CTRL: u16 = 0x00;

/// Write-only register which requests that the current frame be presented.
pub const VIDEO_PRESENT: u16 = 0x01;

/// Read-only framebuffer width.
pub const VIDEO_WIDTH: u16 = 0x02;

/// Read-only framebuffer height.
pub const VIDEO_HEIGHT: u16 = 0x03;

/// Read-only pixel format (`1` means RGB332).
pub const VIDEO_FORMAT: u16 = 0x04;

/// Enables presentation when set in [`VIDEO_CTRL`].
pub const VIDEO_CTRL_ENABLE: u8 = 0x01;

/// Width of the video framebuffer in pixels.
pub const WIDTH: usize = 128;

/// Height of the video framebuffer in pixels.
pub const HEIGHT: usize = 96;

/// Number of RGB332 bytes in the video framebuffer.
pub const VRAM_SIZE: usize = 12288;

// ---------------------------------------------------------------------------
// RGB332 conversion
// ---------------------------------------------------------------------------

/// Scales a channel value in `0..=max` to the full `0..=255` range.
pub open spec fn scale_channel(value: int, max: int) -> u8 {
    (value * 255 / max) as u8
}

/// The three eight-bit channels that one RGB332 byte stands for: the top
/// three bits are red, the next three green and the low two blue.
pub open spec fn rgb888_of(pixel: u8) -> Seq<u8> {
    seq![
        scale_channel(pixel as int / 32, 7),
        scale_channel((pixel as int / 4) % 8, 7),
        scale_channel(pixel as int % 4, 3),
    ]
}

proof fn lemma_scaled_channels_fit(value: int)
    requires
        0 <= value <= 7,
    ensures
        0 <= value * 255 / 7 <= 255,
        value <= 3 ==> 0 <= value * 255 / 3 <= 255,
{
    assert(0 <= value * 255 <= 1785) by (nonlinear_arith)
        requires
            0 <= value <= 7,
    ;
    if value <= 3 {
        assert(0 <= value * 255 <= 765) by (nonlinear_arith)
            requires
                0 <= value <= 3,
        ;
    }
}

/// Expands one RGB332 framebuffer byte into eight-bit RGB channels.
pub fn rgb332_to_rgb888(pixel: u8) -> (rgb: [u8; 3])
    ensures
        rgb@ == rgb888_of(pixel),
{
    let red = ((pixel >> 5) & 0x07) as u16;
    let green = ((pixel >> 2) & 0x07) as u16;
    let blue = (pixel & 0x03) as u16;
    assert(((pixel >> 5) & 0x07) as int == pixel as int / 32 && ((pixel >> 2) & 0x07) as int == (
    pixel as int / 4) % 8 && (pixel & 0x03) as int == pixel as int % 4) by (bit_vector);
    proof {
        lemma_scaled_channels_fit(red as int);
        lemma_scaled_channels_fit(green as int);
        lemma_scaled_channels_fit(blue as int);
    }
    let rgb = [(red * 255 / 7) as u8, (green * 255 / 7) as u8, (blue * 255 / 3) as u8];
    assert(rgb@ =~= rgb888_of(pixel));
    rgb
}

// ---------------------------------------------------------------------------
// Buttons and input
// ---------------------------------------------------------------------------

/// Buttons exposed by [`InputDevice`], one per bit in the input registers.
#[derive(Clone, Copy, Debug, Eq, Hash, PartialEq, Structural)]
pub enum Button {
    Up,
    Down,
    Left,
    Right,
    A,
    B,
    Start,
    Select,
}

impl Button {
    /// The single bit that stands for this button.
    pub open spec fn spec_bit(self) -> u8 {
        match self {
            Button::Up => 0x01,
            Button::Down => 0x02,
            Button::Left => 0x04,
            Button::Right => 0x08,
            Button::A => 0x10,
            Button::B => 0x20,
            Button::Start => 0x40,
            Button::Select => 0x80,
        }
    }

    /// Returns this button's bit in [`INPUT_STATE`] and [`INPUT_PRESSED`].
    #[verifier::when_used_as_spec(spec_bit)]
    pub fn bit(self) -> (bit: u8)
        ensures
            bit == self.spec_bit(),
    {
        match self {
            Button::Up => 0x01,
            Button::Down => 0x02,
            Button::Left => 0x04,
            Button::Right => 0x08,
            Button::A => 0x10,
            Button::B => 0x20,
            Button::Start => 0x40,
            Button::Select => 0x80,
        }
    }
}

/// The state of an [`InputDevice`]: buttons held now, latched rising edges,
/// and the signed host pointer.
pub struct InputState {
    pub state: u8,
    pub pressed: u8,
    pub pointer_x: i8,
    pub pointer_y: i8,
}

impl InputState {
    /// Nothing held, nothing latched, pointer at the origin.
    pub open spec fn initial() -> InputState {
        InputState { state: 0, pressed: 0, pointer_x: 0, pointer_y: 0 }
    }

    /// The host replaces the held buttons; buttons that were up and are now
    /// down are added to the latch.
    pub open spec fn with_buttons(self, state: u8) -> InputState {
        InputState { state, pressed: self.pressed | (state & !self.state), ..self }
    }

    /// The value a guest reads from a local input register.
    pub open spec fn register(self, offset: u16) -> u8 {
        if offset == INPUT_STATE {
            self.state
        } else if offset == INPUT_PRESSED {
            self.pressed
        } else if offset == INPUT_POINTER_X {
            self.pointer_x as u8
        } else if offset == INPUT_POINTER_Y {
            self.pointer_y as u8
        } else {
            0xff
        }
    }

    /// The state after a guest write: only the latch is writable, and each one
    /// bit written clears the matching latched bit.
    pub open spec fn after_write(self, offset: u16, value: u8) -> InputState {
        if offset == INPUT_PRESSED {
            InputState { pressed: self.pressed & !value, ..self }
        } else {
            self
        }
    }
}

/// Host-populated button and pointer state.
///
/// `state` reflects buttons held now. `pressed` latches rising edges until the
/// guest acknowledges them by writing ones to [`INPUT_PRESSED`].
#[derive(Clone, Copy, Debug, Eq, PartialEq)]
pub struct InputDevice {
    state: u8,
    pressed: u8,
    pointer_x: i8,
    pointer_y: i8,
}

impl View for InputDevice {
    type V = InputState;

    closed spec fn view(&self) -> InputState {
        InputState {
            state: self.state,
            pressed: self.pressed,
            pointer_x: self.pointer_x,
            pointer_y: self.pointer_y,
        }
    }
}

impl Default for InputDevice {
    fn default() -> (input: InputDevice)
        ensures
            input@ == InputState::initial(),
    {
        InputDevice::new()
    }
}

impl InputDevice {
    pub fn new() -> (input: InputDevice)
        ensures
            input@ == InputState::initial(),
    {
        InputDevice { state: 0, pressed: 0, pointer_x: 0, pointer_y: 0 }
    }

    pub fn reset(&mut self)
        ensures
            final(self)@ == InputState::initial(),
    {
        *self = InputDevice::new();
    }

    pub fn state(&self) -> (state: u8)
        ensures
            state == self@.state,
    {
        self.state
    }

    pub fn pressed(&self) -> (pressed: u8)
        ensures
            pressed == self@.pressed,
    {
        self.pressed
    }

    pub fn pointer_x(&self) -> (x: i8)
        ensures
            x == self@.pointer_x,
    {
        self.pointer_x
    }

    pub fn pointer_y(&self) -> (y: i8)
        ensures
            y == self@.pointer_y,
    {
        self.pointer_y
    }

    pub fn pointer(&self) -> (pointer: (i8, i8))
        ensures
            pointer == (self@.pointer_x, self@.pointer_y),
    {
        (self.pointer_x, self.pointer_y)
    }

    pub fn is_down(&self, button: Button) -> (down: bool)
        ensures
            down == (self@.state & button.spec_bit() != 0),
    {
        self.state & button.bit() != 0
    }

    /// Replaces the host button state and latches newly pressed buttons.
    pub fn set_buttons(&mut self, state: u8)
        ensures
            final(self)@ == old(self)@.with_buttons(state),
    {
        self.pressed = self.pressed | (state & !self.state);
        self.state = state;
    }

    pub fn press(&mut self, button: Button)
        ensures
            final(self)@ == old(self)@.with_buttons(old(self)@.state | button.spec_bit()),
    {
        self.set_buttons(self.state | button.bit());
    }

    pub fn release(&mut self, button: Button)
        ensures
            final(self)@ == old(self)@.with_buttons(old(self)@.state & !button.spec_bit()),
    {
        self.set_buttons(self.state & !button.bit());
    }

    pub fn set_pointer(&mut self, x: i8, y: i8)
        ensures
            final(self)@ == (InputState { pointer_x: x, pointer_y: y, ..old(self)@ }),
    {
        self.pointer_x = x;
        self.pointer_y = y;
    }

    /// Reads a local input register. Unknown offsets read as `0xff`.
    pub fn read(&self, offset: u16) -> (value: u8)
        ensures
            value == self@.register(offset),
    {
        match offset {
            INPUT_STATE => self.state,
            INPUT_PRESSED => self.pressed,
            INPUT_POINTER_X => self.pointer_x as u8,
            INPUT_POINTER_Y => self.pointer_y as u8,
            _ => 0xff,
        }
    }

    /// Writes a local input register.
    ///
    /// Only [`INPUT_PRESSED`] is guest-writable. Its bits use write-one-to-clear
    /// semantics; host-owned state and pointer registers ignore guest writes.
    pub fn write(&mut self, offset: u16, value: u8)
        ensures
            final(self)@ == old(self)@.after_write(offset, value),
    {
        if offset == INPUT_PRESSED {
            self.pressed = self.pressed & !value;
        }
    }
}

/// A rising edge is latched: every button that goes from up to down is set
/// in the latch afterwards, the latch never loses a bit on a host update, and
/// the held state is exactly what the host supplied. Nothing else is
/// latched: the latch gains exactly the rising edges, so a button that was
/// already down and not latched (say, acknowledged by the guest while still
/// held) stays unlatched, and a button that is up afterwards gains no latch
/// bit.
pub proof fn lemma_input_latches_rising_edges(input: InputState, state: u8)
    ensures
        input.with_buttons(state).state == state,
        input.with_buttons(state).pressed & (state & !input.state) == state & !input.state,
        input.with_buttons(state).pressed & input.pressed == input.pressed,
        input.with_buttons(state).pressed == input.pressed | (state & !input.state),
        input.with_buttons(state).pressed & input.state & !input.pressed == 0,
        input.with_buttons(state).pressed & !state & !input.pressed == 0,
{
    let p = input.pressed;
    let s = input.state;
    let q = input.with_buttons(state).pressed;
    assert(q == p | (state & !s));
    assert((p | (state & !s)) & (state & !s) == state & !s && (p | (state & !s)) & p == p && (p | (
    state & !s)) & s & !p == 0 && (p | (state & !s)) & !state & !p == 0) by (bit_vector);
}

/// Writing ones to the latch register clears exactly those bits and keeps
/// every other latched bit; every other input register ignores guest writes.
pub proof fn lemma_input_write_one_to_clear(input: InputState, offset: u16, value: u8)
    ensures
        input.after_write(INPUT_PRESSED, value).pressed & value == 0,
        input.after_write(INPUT_PRESSED, value).pressed & !value == input.pressed & !value,
        input.after_write(INPUT_PRESSED, value).state == input.state,
        offset != INPUT_PRESSED ==> input.after_write(offset, value) == input,
{
    let p = input.pressed;
    assert((p & !value) & value == 0 && (p & !value) & !value == p & !value) by (bit_vector);
}

// ---------------------------------------------------------------------------
// Timer
// ---------------------------------------------------------------------------

/// The state of a [`TimerDevice`].
pub struct TimerState {
    pub reload: u16,
    pub count: u16,
    pub control: u8,
}

impl TimerState {
    /// A stopped timer with zero reload and count.
    pub open spec fn initial() -> TimerState {
        TimerState { reload: 0, count: 0, control: 0 }
    }

    pub open spec fn enabled(self) -> bool {
        self.control & TIMER_CTRL_ENABLE != 0
    }

    pub open spec fn periodic(self) -> bool {
        self.control & TIMER_CTRL_PERIODIC != 0
    }

    /// Whether a tick of `cycles` cycles can move the counter at all.
    pub open spec fn counting(self, cycles: u32) -> bool {
        cycles != 0 && self.enabled() && self.count != 0
    }

    /// Whether a tick of `cycles` cycles brings the counter to zero at least
    /// once.
    pub open spec fn tick_expires(self, cycles: u32) -> bool {
        self.counting(cycles) && cycles >= self.count
    }

    /// The count after a tick of `cycles` cycles. The count runs down by one
    /// per cycle; on reaching zero a periodic timer with a nonzero reload
    /// starts again from the reload value and keeps consuming the remaining
    /// cycles, any other timer stays at zero.
    pub open spec fn count_after_tick(self, cycles: u32) -> u16 {
        if !self.counting(cycles) {
            self.count
        } else if cycles < self.count {
            (self.count - cycles) as u16
        } else if self.periodic() && self.reload != 0 {
            (self.reload - (cycles - self.count) % (self.reload as int)) as u16
        } else {
            0
        }
    }

    pub open spec fn after_tick(self, cycles: u32) -> TimerState {
        TimerState { count: self.count_after_tick(cycles), ..self }
    }

    /// The value a guest reads from a local timer register; 16-bit values
    /// are little-endian.
    pub open spec fn register(self, offset: u16) -> u8 {
        if offset == TIMER_RELOAD_LO {
            (self.reload % 256) as u8
        } else if offset == TIMER_RELOAD_HI {
            (self.reload / 256) as u8
        } else if offset == TIMER_COUNT_LO {
            (self.count % 256) as u8
        } else if offset == TIMER_COUNT_HI {
            (self.count / 256) as u8
        } else if offset == TIMER_CTRL {
            self.control
        } else {
            0xff
        }
    }

    /// The state after a guest write. Byte writes replace one half of a
    /// little-endian 16-bit value; a control write keeps the enable and
    /// periodic bits and, when the restart bit is set, copies the reload
    /// value into the count.
    pub open spec fn after_write(self, offset: u16, value: u8) -> TimerState {
        if offset == TIMER_RELOAD_LO {
            TimerState { reload: ((self.reload / 256) * 256 + value) as u16, ..self }
        } else if offset == TIMER_RELOAD_HI {
            TimerState { reload: (value * 256 + self.reload % 256) as u16, ..self }
        } else if offset == TIMER_COUNT_LO {
            TimerState { count: ((self.count / 256) * 256 + value) as u16, ..self }
        } else if offset == TIMER_COUNT_HI {
            TimerState { count: (value * 256 + self.count % 256) as u16, ..self }
        } else if offset == TIMER_CTRL {
            TimerState {
                control: value & (TIMER_CTRL_ENABLE | TIMER_CTRL_PERIODIC),
                count: if value & TIMER_CTRL_RESTART != 0 {
                    self.reload
                } else {
                    self.count
                },
                ..self
            }
        } else {
            self
        }
    }
}

/// A cycle-counting 16-bit timer.
#[derive(Clone, Copy, Debug, Eq, PartialEq)]
pub struct TimerDevice {
    reload: u16,
    count: u16,
    control: u8,
}

impl View for TimerDevice {
    type V = TimerState;

    closed spec fn view(&self) -> TimerState {
        TimerState { reload: self.reload, count: self.count, control: self.control }
    }
}

impl Default for TimerDevice {
    fn default() -> (timer: TimerDevice)
        ensures
            timer@ == TimerState::initial(),
    {
        TimerDevice::new()
    }
}

proof fn lemma_byte_halves(word: u16, value: u8)
    ensures
        (word & 0xff00) | (value as u16) == (word as int / 256) * 256 + value,
        (word & 0x00ff) | ((value as u16) << 8u16) == value as int * 256 + word as int % 256,
        (word as u8) as int == word as int % 256,
        ((word >> 8u16) as u8) as int == word as int / 256,
{
    assert((word & 0xff00) | (value as u16) == (word / 256) * 256 + value && (word & 0x00ff) | ((
    value as u16) << 8u16) == (value as u16) * 256 + word % 256 && (word as u8) == word % 256 && ((
    word >> 8u16) as u8) == word / 256) by (bit_vector);
}

impl TimerDevice {
    pub fn new() -> (timer: TimerDevice)
        ensures
            timer@ == TimerState::initial(),
    {
        TimerDevice { reload: 0, count: 0, control: 0 }
    }

    pub fn reset(&mut self)
        ensures
            final(self)@ == TimerState::initial(),
    {
        *self = TimerDevice::new();
    }

    pub fn reload(&self) -> (reload: u16)
        ensures
            reload == self@.reload,
    {
        self.reload
    }

    pub fn count(&self) -> (count: u16)
        ensures
            count == self@.count,
    {
        self.count
    }

    pub fn control(&self) -> (control: u8)
        ensures
            control == self@.control,
    {
        self.control
    }

    pub fn enabled(&self) -> (enabled: bool)
        ensures
            enabled == self@.enabled(),
    {
        self.control & TIMER_CTRL_ENABLE != 0
    }

    pub fn periodic(&self) -> (periodic: bool)
        ensures
            periodic == self@.periodic(),
    {
        self.control & TIMER_CTRL_PERIODIC != 0
    }

    pub fn set_reload(&mut self, reload: u16)
        ensures
            final(self)@ == (TimerState { reload, ..old(self)@ }),
    {
        self.reload = reload;
    }

    pub fn set_count(&mut self, count: u16)
        ensures
            final(self)@ == (TimerState { count, ..old(self)@ }),
    {
        self.count = count;
    }

    pub fn restart(&mut self)
        ensures
            final(self)@ == (TimerState { count: old(self)@.reload, ..old(self)@ }),
    {
        self.count = self.reload;
    }

    /// Advances the timer and reports whether it reached zero at least once.
    ///
    /// A periodic timer reloads immediately on expiry and consumes any cycles
    /// left in this tick. A zero reload value remains stopped at zero. A
    /// one-shot timer retains its enable bit after expiry but cannot raise a
    /// second interrupt until its count is restarted or written again.
    pub fn tick(&mut self, cycles: u32) -> (expired: bool)
        ensures
            expired == old(self)@.tick_expires(cycles),
            final(self)@ == old(self)@.after_tick(cycles),
    {
        if cycles == 0 || !self.enabled() || self.count == 0 {
            return false;
        }
        let count = self.count as u32;
        if cycles < count {
            self.count = self.count - cycles as u16;
            return false;
        }
        self.count = 0;
        if self.periodic() && self.reload != 0 {
            let remaining = cycles - count;
            let period = self.reload as u32;
            let remainder = remaining % period;
            self.count = if remainder == 0 {
                self.reload
            } else {
                (period - remainder) as u16
            };
        }
        true
    }

    /// Reads a local timer register. Multi-byte values are little-endian.
    /// Unknown offsets read as `0xff`.
    pub fn read(&self, offset: u16) -> (value: u8)
        ensures
            value == self@.register(offset),
    {
        proof {
            lemma_byte_halves(self.reload, 0);
            lemma_byte_halves(self.count, 0);
        }
        match offset {
            TIMER_RELOAD_LO => self.reload as u8,
            TIMER_RELOAD_HI => (self.reload >> 8u16) as u8,
            TIMER_COUNT_LO => self.count as u8,
            TIMER_COUNT_HI => (self.count >> 8u16) as u8,
            TIMER_CTRL => self.control,
            _ => 0xff,
        }
    }

    /// Writes a local timer register. Multi-byte values are little-endian.
    ///
    /// The restart bit in [`TIMER_CTRL`] acts as a strobe and is not retained
    /// when the control register is read back.
    pub fn write(&mut self, offset: u16, value: u8)
        ensures
            final(self)@ == old(self)@.after_write(offset, value),
    {
        proof {
            lemma_byte_halves(self.reload, value);
            lemma_byte_halves(self.count, value);
        }
        match offset {
            TIMER_RELOAD_LO => {
                self.reload = (self.reload & 0xff00) | (value as u16);
            },
            TIMER_RELOAD_HI => {
                self.reload = (self.reload & 0x00ff) | ((value as u16) << 8u16);
            },
            TIMER_COUNT_LO => {
                self.count = (self.count & 0xff00) | (value as u16);
            },
            TIMER_COUNT_HI => {
                self.count = (self.count & 0x00ff) | ((value as u16) << 8u16);
            },
            TIMER_CTRL => {
                self.control = value & (TIMER_CTRL_ENABLE | TIMER_CTRL_PERIODIC);
                if value & TIMER_CTRL_RESTART != 0 {
                    self.restart();
                }
            },
            _ => {},
        }
    }
}

/// Splitting a tick does not change a periodic timer: ticking `a` cycles and
/// then `b` cycles leaves the same count as one tick of `a + b` cycles, and
/// the single tick expires exactly when one of the two ticks does.
pub proof fn lemma_periodic_tick_splits(timer: TimerState, a: u32, b: u32)
    requires
        timer.enabled(),
        timer.periodic(),
        timer.reload != 0,
        timer.count != 0,
        a as int + b as int <= u32::MAX,
    ensures
        timer.after_tick(a).after_tick(b).count == timer.after_tick((a + b) as u32).count,
        timer.tick_expires((a + b) as u32) == (timer.tick_expires(a) || timer.after_tick(
            a,
        ).tick_expires(b)),
{
    let c = timer.count as int;
    let r = timer.reload as int;
    let t1 = timer.after_tick(a);
    if a == 0 || b == 0 {
        assert(timer.after_tick(0) == timer);
    } else if a < c {
        assert(t1.count == c - a);
    } else {
        let q = (a - c) / r;
        let m = (a - c) % r;
        vstd::arithmetic::div_mod::lemma_fundamental_div_mod(a - c, r);
        vstd::arithmetic::div_mod::lemma_mod_bound(a - c, r);
        assert(t1.count == r - m);
        if b < r - m {
            assert(a + b - c == q * r + (m + b));
            vstd::arithmetic::div_mod::lemma_fundamental_div_mod_converse(a + b - c, r, q, m + b);
        } else {
            let rest = b - (r - m);
            let q2 = rest / r;
            let m2 = rest % r;
            vstd::arithmetic::div_mod::lemma_fundamental_div_mod(rest, r);
            vstd::arithmetic::div_mod::lemma_mod_bound(rest, r);
            assert(a + b - c == (q + 1 + q2) * r + m2) by (nonlinear_arith)
                requires
                    a - c == q * r + m,
                    rest == q2 * r + m2,
                    rest == b - (r - m),
            ;
            vstd::arithmetic::div_mod::lemma_fundamental_div_mod_converse(
                a + b - c,
                r,
                q + 1 + q2,
                m2,
            );
        }
    }
}

/// A one-shot timer (or a periodic one with a zero reload) that expires
/// stops at zero and keeps its control bits, so no later tick can expire it
/// again until its count is written or restarted.
pub proof fn lemma_one_shot_timer_expires_once(timer: TimerState, first: u32, later: u32)
    requires
        !timer.periodic() || timer.reload == 0,
        timer.tick_expires(first),
    ensures
        timer.after_tick(first).count == 0,
        timer.after_tick(first).control == timer.control,
        timer.after_tick(first).reload == timer.reload,
        !timer.after_tick(first).tick_expires(later),
{
}

/// A tick only ever touches the count, and a tick expires exactly when a
/// running timer's count reaches zero within the tick's cycles.
pub proof fn lemma_tick_expires_on_zero_transition(timer: TimerState, cycles: u32)
    ensures
        timer.after_tick(cycles).reload == timer.reload,
        timer.after_tick(cycles).control == timer.control,
        timer.tick_expires(cycles) <==> (timer.enabled() && timer.count != 0 && cycles
            >= timer.count && cycles != 0),
        !timer.tick_expires(cycles) && timer.counting(cycles) ==> timer.after_tick(cycles).count
            == timer.count - cycles,
        !timer.counting(cycles) ==> timer.after_tick(cycles) == timer,
{
}

// ---------------------------------------------------------------------------
// Video
// ---------------------------------------------------------------------------

/// Host-side output target for the ZT8 RGB332 framebuffer.
///
/// Backends can convert the supplied one-byte-per-pixel RGB332 data into a
/// window, image, terminal representation, or any other presentation format.
/// The frame handed over always holds `width * height` row-major pixels.
pub trait VideoBackend {
    fn present(&mut self, width: usize, height: usize, pixels: &[u8])
        requires
            pixels@.len() == width * height,
    ;
}

/// The state of a [`VideoDevice`].
pub struct VideoState {
    pub pixels: Seq<u8>,
    pub enabled: bool,
    pub dirty: bool,
    pub frame_pending: bool,
    pub frame_sequence: u64,
}

/// The row-major index of an in-bounds pixel.
pub open spec fn pixel_offset(x: usize, y: usize) -> Option<int> {
    if x < WIDTH && y < HEIGHT {
        Some(y * WIDTH + x)
    } else {
        None::<int>
    }
}

impl VideoState {
    /// A black frame with video disabled and nothing pending.
    pub open spec fn initial() -> VideoState {
        VideoState {
            pixels: Seq::new(VRAM_SIZE as nat, |i: int| 0u8),
            enabled: false,
            dirty: false,
            frame_pending: false,
            frame_sequence: 0,
        }
    }

    /// The state after the guest requests a presentation: the frame sequence
    /// advances (wrapping) and a frame is pending.
    pub open spec fn after_present_request(self) -> VideoState {
        VideoState {
            frame_sequence: if self.frame_sequence == u64::MAX {
                0
            } else {
                (self.frame_sequence + 1) as u64
            },
            frame_pending: true,
            ..self
        }
    }

    /// The value a guest reads from a local video register.
    pub open spec fn register(self, offset: u16) -> u8 {
        if offset == VIDEO_CTRL {
            if self.enabled {
                VIDEO_CTRL_ENABLE
            } else {
                0
            }
        } else if offset == VIDEO_PRESENT {
            (self.frame_sequence % 256) as u8
        } else if offset == VIDEO_WIDTH {
            WIDTH as u8
        } else if offset == VIDEO_HEIGHT {
            HEIGHT as u8
        } else if offset == VIDEO_FORMAT {
            1
        } else {
            0xff
        }
    }

    /// The state after a guest write to a local video register.
    pub open spec fn after_write(self, offset: u16, value: u8) -> VideoState {
        if offset == VIDEO_CTRL {
            VideoState { enabled: value & VIDEO_CTRL_ENABLE != 0, ..self }
        } else if offset == VIDEO_PRESENT {
            self.after_present_request()
        } else {
            self
        }
    }

    /// The framebuffer byte at `offset`, if it is in range.
    pub open spec fn vram(self, offset: usize) -> Option<u8> {
        if offset < self.pixels.len() {
            Some(self.pixels[offset as int])
        } else {
            None::<u8>
        }
    }

    /// The state after writing a framebuffer byte; out-of-range offsets
    /// change nothing.
    pub open spec fn after_vram_write(self, offset: usize, value: u8) -> VideoState {
        if offset < self.pixels.len() {
            VideoState { pixels: self.pixels.update(offset as int, value), dirty: true, ..self }
        } else {
            self
        }
    }

    /// Whether rendering now calls the backend.
    pub open spec fn presents(self) -> bool {
        self.frame_pending && self.enabled
    }

    /// The state after a render attempt: a pending request is always
    /// consumed, and the frame counts as clean only if it was presented.
    pub open spec fn after_render(self) -> VideoState {
        if !self.frame_pending {
            self
        } else if !self.enabled {
            VideoState { frame_pending: false, ..self }
        } else {
            VideoState { frame_pending: false, dirty: false, ..self }
        }
    }
}

/// A render attempt always consumes the pending request, so a second attempt
/// right after presents nothing; the frame itself and its sequence number are
/// untouched, and the frame counts as clean only when it was presented.
pub proof fn lemma_render_consumes_the_request(video: VideoState)
    ensures
        !video.after_render().frame_pending,
        !video.after_render().presents(),
        video.after_render().after_render() == video.after_render(),
        video.after_render().pixels == video.pixels,
        video.after_render().frame_sequence == video.frame_sequence,
        video.after_render().enabled == video.enabled,
        video.after_render().dirty == (video.dirty && !video.presents()),
{
}

/// A presentation request is answered by the next render exactly when video
/// output is enabled; a disabled device swallows the request.
pub proof fn lemma_requested_frame_presents_when_enabled(video: VideoState)
    ensures
        video.after_present_request().presents() == video.enabled,
        video.after_present_request().frame_pending,
        video.after_present_request().pixels == video.pixels,
{
}

/// A 128x96 RGB332 framebuffer and its presentation registers.
#[derive(Clone, Debug, Eq, PartialEq)]
pub struct VideoDevice {
    pixels: [u8; VRAM_SIZE],
    enabled: bool,
    dirty: bool,
    frame_pending: bool,
    frame_sequence: u64,
}

impl View for VideoDevice {
    type V = VideoState;

    closed spec fn view(&self) -> VideoState {
        VideoState {
            pixels: self.pixels@,
            enabled: self.enabled,
            dirty: self.dirty,
            frame_pending: self.frame_pending,
            frame_sequence: self.frame_sequence,
        }
    }
}

impl Default for VideoDevice {
    fn default() -> (video: VideoDevice)
        ensures
            video@ == VideoState::initial(),
    {
        VideoDevice::new()
    }
}

/// Every video device's framebuffer holds exactly [`VRAM_SIZE`] pixels.
pub broadcast proof fn lemma_video_frame_size(video: VideoDevice)
    ensures
        #[trigger] video@.pixels.len() == VRAM_SIZE,
{
    video.lemma_frame_size();
}

impl VideoDevice {
    /// The framebuffer always holds exactly [`VRAM_SIZE`] pixels.
    pub proof fn lemma_frame_size(&self)
        ensures
            self@.pixels.len() == VRAM_SIZE,
    {
    }

    pub fn new() -> (video: VideoDevice)
        ensures
            video@ == VideoState::initial(),
    {
        let video = VideoDevice {
            pixels: [0u8; VRAM_SIZE],
            enabled: false,
            dirty: false,
            frame_pending: false,
            frame_sequence: 0,
        };
        assert(video@.pixels =~= VideoState::initial().pixels);
        video
    }

    pub fn reset(&mut self)
        ensures
            final(self)@ == VideoState::initial(),
    {
        *self = VideoDevice::new();
    }

    pub fn enabled(&self) -> (enabled: bool)
        ensures
            enabled == self@.enabled,
    {
        self.enabled
    }

    pub fn set_enabled(&mut self, enabled: bool)
        ensures
            final(self)@ == (VideoState { enabled, ..old(self)@ }),
    {
        self.enabled = enabled;
    }

    pub fn dirty(&self) -> (dirty: bool)
        ensures
            dirty == self@.dirty,
    {
        self.dirty
    }

    pub fn clear_dirty(&mut self)
        ensures
            final(self)@ == (VideoState { dirty: false, ..old(self)@ }),
    {
        self.dirty = false;
    }

    pub fn frame_pending(&self) -> (pending: bool)
        ensures
            pending == self@.frame_pending,
    {
        self.frame_pending
    }

    pub fn frame_sequence(&self) -> (sequence: u64)
        ensures
            sequence == self@.frame_sequence,
    {
        self.frame_sequence
    }

    /// Returns the complete RGB332 framebuffer in row-major order.
    pub fn frame(&self) -> (frame: &[u8])
        ensures
            frame@ == self@.pixels,
    {
        self.pixels.as_slice()
    }

    /// Alias for [`VideoDevice::frame`].
    pub fn pixels(&self) -> (pixels: &[u8])
        ensures
            pixels@ == self@.pixels,
    {
        self.frame()
    }

    /// Converts the current frame to RGBA8888 in caller-owned storage.
    /// Returns `false` without writing if the destination is too short.
    pub fn copy_rgba(&self, destination: &mut [u8]) -> (copied: bool)
        ensures
            copied == (old(destination)@.len() >= VRAM_SIZE * 4),
            !copied ==> final(destination)@ == old(destination)@,
            final(destination)@.len() == old(destination)@.len(),
            copied ==> forall|i: int, c: int|
                #![trigger final(destination)@[4 * i + c]]
                0 <= i < VRAM_SIZE && 0 <= c < 4 ==> final(destination)@[4 * i + c] == (if c
                    < 3 {
                    rgb888_of(self@.pixels[i])[c]
                } else {
                    0xffu8
                }),
            copied ==> forall|k: int|
                VRAM_SIZE * 4 <= k < old(destination)@.len() ==> #[trigger] final(destination)@[k]
                    == old(destination)@[k],
    {
        if destination.len() < VRAM_SIZE * 4 {
            return false;
        }
        let mut i: usize = 0;
        while i < VRAM_SIZE
            invariant
                i <= VRAM_SIZE,
                self.pixels@.len() == VRAM_SIZE,
                destination@.len() == old(destination)@.len(),
                old(destination)@.len() >= VRAM_SIZE * 4,
                forall|j: int, c: int|
                    #![trigger destination@[4 * j + c]]
                    0 <= j < i && 0 <= c < 4 ==> destination@[4 * j + c] == (if c < 3 {
                        rgb888_of(self.pixels@[j])[c]
                    } else {
                        0xffu8
                    }),
                forall|k: int|
                    4 * i <= k < old(destination)@.len() ==> #[trigger] destination@[k]
                    == old(destination)@[k],
            decreases VRAM_SIZE - i,
        {
            let rgb = rgb332_to_rgb888(self.pixels[i]);
            let base = 4 * i;
            destination[base] = rgb[0];
            destination[base + 1] = rgb[1];
            destination[base + 2] = rgb[2];
            destination[base + 3] = 0xff;
            proof {
                assert forall|j: int, c: int|
                    #![trigger destination@[4 * j + c]]
                    0 <= j < i + 1 && 0 <= c < 4 implies destination@[4 * j + c] == (if c < 3 {
                        rgb888_of(self.pixels@[j])[c]
                    } else {
                        0xffu8
                    }) by {
                    if j == i {
                        assert(4 * j + c == base + c);
                    } else {
                        assert(4 * j + c < base) by (nonlinear_arith)
                            requires
                                j < i,
                                0 <= c < 4,
                                base == 4 * i,
                        ;
                    }
                }
            }
            i = i + 1;
        }
        true
    }

    pub fn pixel(&self, x: usize, y: usize) -> (pixel: Option<u8>)
        ensures
            pixel == (match pixel_offset(x, y) {
                Some(index) => Some(self@.pixels[index]),
                None => None::<u8>,
            }),
    {
        match Self::pixel_index(x, y) {
            Some(index) => Some(self.pixels[index]),
            None => None,
        }
    }

    /// Sets one pixel and returns whether the coordinates were in bounds.
    pub fn set_pixel(&mut self, x: usize, y: usize, value: u8) -> (in_bounds: bool)
        ensures
            in_bounds == pixel_offset(x, y).is_some(),
            final(self)@ == (match pixel_offset(x, y) {
                Some(index) => VideoState {
                    pixels: old(self)@.pixels.update(index, value),
                    dirty: true,
                    ..old(self)@
                },
                None => old(self)@,
            }),
    {
        match Self::pixel_index(x, y) {
            Some(index) => {
                self.pixels[index] = value;
                self.dirty = true;
                true
            },
            None => false,
        }
    }

    pub fn read_vram(&self, offset: usize) -> (value: Option<u8>)
        ensures
            value == self@.vram(offset),
    {
        if offset < VRAM_SIZE {
            Some(self.pixels[offset])
        } else {
            None
        }
    }

    /// Writes a framebuffer byte and returns whether the offset was in bounds.
    pub fn write_vram(&mut self, offset: usize, value: u8) -> (in_bounds: bool)
        ensures
            in_bounds == (offset < VRAM_SIZE),
            final(self)@ == old(self)@.after_vram_write(offset, value),
    {
        if offset < VRAM_SIZE {
            self.pixels[offset] = value;
            self.dirty = true;
            true
        } else {
            false
        }
    }

    /// Reads a local video register. Unknown offsets read as `0xff`.
    pub fn read(&self, offset: u16) -> (value: u8)
        ensures
            value == self@.register(offset),
    {
        match offset {
            VIDEO_CTRL => {
                if self.enabled {
                    VIDEO_CTRL_ENABLE
                } else {
                    0
                }
            },
            VIDEO_PRESENT => (self.frame_sequence % 256) as u8,
            VIDEO_WIDTH => 128,
            VIDEO_HEIGHT => 96,
            VIDEO_FORMAT => 1,
            _ => 0xff,
        }
    }

    /// Writes a local video register.
    pub fn write(&mut self, offset: u16, value: u8)
        ensures
            final(self)@ == old(self)@.after_write(offset, value),
    {
        match offset {
            VIDEO_CTRL => {
                self.enabled = value & VIDEO_CTRL_ENABLE != 0;
            },
            VIDEO_PRESENT => self.request_present(),
            _ => {},
        }
    }

    /// Queues the current framebuffer for presentation.
    pub fn request_present(&mut self)
        ensures
            final(self)@ == old(self)@.after_present_request(),
    {
        self.frame_sequence = self.frame_sequence.wrapping_add(1);
        self.frame_pending = true;
    }

    /// Consumes a pending frame and presents it when video output is enabled.
    ///
    /// Returns `true` only when the backend was called, with the complete
    /// `WIDTH` by `HEIGHT` frame. A pending request is consumed even while
    /// disabled; pixel dirtiness is cleared only after a successful
    /// presentation.
    pub fn render_if_pending<B: VideoBackend + ?Sized>(&mut self, backend: &mut B) -> (presented:
        bool)
        ensures
            presented == old(self)@.presents(),
            final(self)@ == old(self)@.after_render(),
            presented ==> exists|target: &mut B, frame: &[u8]|
                {
                    &&& #[trigger] call_ensures(B::present, (target, WIDTH, HEIGHT, frame), ())
                    &&& frame@ == old(self)@.pixels
                    &&& &*target == &*old(backend)
                    &&& &*final(target) == &*final(backend)
                },
            !presented ==> &*final(backend) == &*old(backend),
    {
        if !self.frame_pending {
            return false;
        }
        self.frame_pending = false;
        if !self.enabled {
            return false;
        }
        backend.present(WIDTH, HEIGHT, self.pixels.as_slice());
        self.dirty = false;
        true
    }

    fn pixel_index(x: usize, y: usize) -> (index: Option<usize>)
        ensures
            match pixel_offset(x, y) {
                Some(offset) => index == Some(offset as usize) && offset < VRAM_SIZE,
                None => index is None,
            },
    {
        if x < WIDTH && y < HEIGHT {
            Some(y * WIDTH + x)
        } else {
            None
        }
    }
}

} // verus!
