//! The controller's decisions, one main-loop pass at a time: button
//! handling (short press, hold), the dial in frequency and in sequence
//! mode, when to switch the MOSFETs, and what the display shows.
//!
//! Frequencies are fixed-point, in tenths of a hertz, the resolution of the
//! dial and of the display. Times are nanoseconds on a monotonic clock.

use vstd::prelude::*;
use crate::bus::BusOp;
use crate::mosfet::{
    MosfetState,
    spec_state_definition,
    spec_sequence,
    state_definition,
    sequence,
    SEQUENCE_COUNT,
};
use crate::tm1637::{TM1637, BLANK, display_ops, frequency_digits, sequence_digits, sequence_point};

verus! {

/// Highest frequency, 10 kHz, in tenths of a hertz.
pub const MAX_FREQ: u32 = 100_000;

/// Lowest frequency, 0.1 Hz, in tenths of a hertz.
pub const MIN_FREQ: u32 = 1;

/// Frequency at start-up, 1 Hz, in tenths of a hertz.
pub const DEFAULT_FREQ: u32 = 10;

/// How long the button must be held to switch modes: 0.5 s.
pub const HOLD_TIME: u64 = 500_000_000;

/// Least time between two short-press toggles: 1.5 s.
pub const FREQ_TOGGLE_HYSTERESIS: u64 = 1_500_000_000;

/// Pause of a main-loop pass in sequence mode: 100 us.
pub const SEQUENCE_MODE_PAUSE: u64 = 100_000;

/// Half a second in nanoseconds times ten: the step time of a frequency in
/// tenths of a hertz is this divided by the frequency, rounded to nearest.
pub const HALF_PERIOD_SCALE: u64 = 5_000_000_000;

/// Time from `start` to `now`, zero when `now` comes first.
pub open spec fn since(now: u64, start: u64) -> u64 {
    if now >= start {
        (now - start) as u64
    } else {
        0
    }
}

/// The application state.
pub struct AppState {
    frequency: u32,
    step_rate: u32,
    sequence_sel: usize,
    sequence_mode: bool,
    sequence_display_detailed: bool,
    dial_offset: i32,
    freq_base: u32,
    sequence_mode_base: i32,
    last_freq_toggle: u64,
    current_step: usize,
    last_step_time: u64,
    last_rotary_steps: i32,
}

/// The model of the application state.
pub struct AppModel {
    /// Switching frequency, tenths of a hertz.
    pub frequency: u32,
    /// Dial resolution: 1 (0.1 Hz per detent) or 10 (1 Hz per detent).
    pub step_rate: u32,
    /// Selected sequence, numbered from 1 to 8.
    pub sequence_sel: usize,
    /// Whether the dial selects the sequence (otherwise the frequency).
    pub sequence_mode: bool,
    /// Whether the sequence display shows the steps (otherwise the number).
    pub sequence_display_detailed: bool,
    /// Encoder count at which the dial was last re-based.
    pub dial_offset: i32,
    /// Frequency at which the dial was last re-based.
    pub freq_base: u32,
    /// Extra offset of the dial in sequence mode.
    pub sequence_mode_base: i32,
    /// Time of the last short-press toggle.
    pub last_freq_toggle: u64,
    /// Position within the running sequence, 0 to 3.
    pub current_step: usize,
    /// Time of the last switch.
    pub last_step_time: u64,
    /// Encoder count seen by the last pass.
    pub last_rotary_steps: i32,
}

impl View for AppState {
    type V = AppModel;

    closed spec fn view(&self) -> AppModel {
        AppModel {
            frequency: self.frequency,
            step_rate: self.step_rate,
            sequence_sel: self.sequence_sel,
            sequence_mode: self.sequence_mode,
            sequence_display_detailed: self.sequence_display_detailed,
            dial_offset: self.dial_offset,
            freq_base: self.freq_base,
            sequence_mode_base: self.sequence_mode_base,
            last_freq_toggle: self.last_freq_toggle,
            current_step: self.current_step,
            last_step_time: self.last_step_time,
            last_rotary_steps: self.last_rotary_steps,
        }
    }
}

/// What always holds of the application state: both frequencies within
/// 0.1 Hz to 10 kHz, a dial resolution of x1 or x10, a sequence number from
/// 1 to 8, and a step within the four of a sequence.
pub open spec fn app_wf(a: AppModel) -> bool {
    &&& MIN_FREQ <= a.frequency <= MAX_FREQ
    &&& MIN_FREQ <= a.freq_base <= MAX_FREQ
    &&& (a.step_rate == 1 || a.step_rate == 10)
    &&& 1 <= a.sequence_sel <= SEQUENCE_COUNT
    &&& a.current_step < 4
}

/// The state at start-up, at time `now`.
pub open spec fn initial_app(now: u64) -> AppModel {
    AppModel {
        frequency: DEFAULT_FREQ,
        step_rate: 1,
        sequence_sel: 1,
        sequence_mode: false,
        sequence_display_detailed: false,
        dial_offset: 0,
        freq_base: DEFAULT_FREQ,
        sequence_mode_base: 0,
        last_freq_toggle: now,
        current_step: 0,
        last_step_time: now,
        last_rotary_steps: 0,
    }
}

/// Time between two switches at a frequency: half its period, rounded to
/// the nearest nanosecond (a half rounds up).
pub open spec fn spec_step_time(frequency: u32) -> u64 {
    ((HALF_PERIOD_SCALE + frequency / 2) as int / frequency as int) as u64
}

impl AppState {
    #[verifier::type_invariant]
    spec fn well_formed(self) -> bool {
        app_wf(self@)
    }

    /// The state at start-up, at time `now`: 1 Hz, dial at x1, sequence 1,
    /// frequency mode.
    pub fn new(now: u64) -> (s: Self)
        ensures
            s@ == initial_app(now),
    {
        AppState {
            frequency: DEFAULT_FREQ,
            step_rate: 1,
            sequence_sel: 1,
            sequence_mode: false,
            sequence_display_detailed: false,
            dial_offset: 0,
            freq_base: DEFAULT_FREQ,
            sequence_mode_base: 0,
            last_freq_toggle: now,
            current_step: 0,
            last_step_time: now,
            last_rotary_steps: 0,
        }
    }

    /// Time between two switches: half the period of the frequency.
    pub fn step_time(&self) -> (t: u64)
        ensures
            t == spec_step_time(self@.frequency),
    {
        proof {
            use_type_invariant(self);
        }
        let f = self.frequency as u64;
        (HALF_PERIOD_SCALE + f / 2) / f
    }

    /// Switching frequency, tenths of a hertz.
    pub fn frequency(&self) -> (f: u32)
        ensures
            f == self@.frequency,
    {
        self.frequency
    }

    /// Dial resolution: 1 or 10 tenths of a hertz per detent.
    pub fn step_rate(&self) -> (r: u32)
        ensures
            r == self@.step_rate,
    {
        self.step_rate
    }

    /// Selected sequence, from 1 to 8.
    pub fn sequence_sel(&self) -> (s: usize)
        ensures
            s == self@.sequence_sel,
    {
        self.sequence_sel
    }

    /// Whether the dial selects the sequence.
    pub fn sequence_mode(&self) -> (m: bool)
        ensures
            m == self@.sequence_mode,
    {
        self.sequence_mode
    }

    /// Whether the sequence display shows the steps.
    pub fn sequence_display_detailed(&self) -> (d: bool)
        ensures
            d == self@.sequence_display_detailed,
    {
        self.sequence_display_detailed
    }

    /// Position within the running sequence.
    pub fn current_step(&self) -> (s: usize)
        ensures
            s == self@.current_step,
    {
        self.current_step
    }
}

/// What the main loop tracks of the button between passes.
#[derive(Clone, Copy, Debug)]
pub struct ButtonTracker {
    /// Whether the button was down at the last pass.
    pub was_pressed: bool,
    /// When the current press began.
    pub press_start: Option<u64>,
    /// Whether the current press has already switched modes.
    pub mode_toggled: bool,
}

/// The controller: the application state and the button tracking.
pub struct Controller {
    app: AppState,
    button: ButtonTracker,
}

/// The model of the controller.
pub struct ControllerModel {
    pub app: AppModel,
    pub button: ButtonTracker,
}

impl View for Controller {
    type V = ControllerModel;

    closed spec fn view(&self) -> ControllerModel {
        ControllerModel { app: self.app@, button: self.button }
    }
}

/// What a main-loop pass asks of the hardware, in this order.
#[derive(Clone, Copy, Debug)]
pub struct Tick {
    /// Switch every MOSFET off.
    pub all_off: bool,
    /// Apply this MOSFET state.
    pub switch_to: Option<MosfetState>,
    /// Pause for `SEQUENCE_MODE_PAUSE` nanoseconds.
    pub pause: bool,
}

/// The frequency the dial gives: the base frequency plus the detents turned
/// since the dial was re-based, each worth the dial resolution, kept within
/// 0.1 Hz to 10 kHz. The detent count wraps as the encoder's count does.
pub open spec fn dialed_frequency(freq_base: u32, steps: i32, dial_offset: i32, step_rate: u32) -> u32 {
    let increment: int = if step_rate == 1 { 1 } else { 10 };
    let target: int = freq_base + vstd::wrapping::i32_specs::wrapping_sub(steps, dial_offset) * increment;
    if target < MIN_FREQ {
        MIN_FREQ
    } else if target > MAX_FREQ {
        MAX_FREQ
    } else {
        target as u32
    }
}

/// The sequence the dial selects: one plus the detents turned since the
/// dial was re-based, counted round the eight sequences (1 to 8).
pub open spec fn dialed_sequence(steps: i32, dial_offset: i32, mode_base: i32) -> usize {
    let delta = vstd::wrapping::i32_specs::wrapping_sub(
        vstd::wrapping::i32_specs::wrapping_sub(steps, dial_offset),
        mode_base,
    );
    let r = vstd::wrapping::i32_specs::wrapping_add(1, delta) as int % 8;
    if r == 0 {
        8
    } else {
        r as usize
    }
}

/// The button part of a pass: the state after it, the tracking after it,
/// and whether it switched the MOSFETs off (on entering sequence mode).
///
/// A press that starts is timed from `now`. Held for `HOLD_TIME`, it
/// switches modes, once per press, and re-bases the dial. Released before
/// that, and at least `FREQ_TOGGLE_HYSTERESIS` after the last toggle, it
/// toggles the dial resolution (frequency mode) or the detailed view
/// (sequence mode). Every release re-bases the dial.
pub open spec fn button_pass(a: AppModel, b: ButtonTracker, now: u64, steps: i32, pressed: bool) -> (
    AppModel,
    ButtonTracker,
    bool,
) {
    let just_pressed = pressed && !b.was_pressed;
    let start = if just_pressed { Some(now) } else { b.press_start };
    let toggled = if just_pressed { false } else { b.mode_toggled };
    let hold = pressed && start is Some && !toggled && since(now, start->0) >= HOLD_TIME;
    let a1 = if hold {
        AppModel {
            sequence_mode: !a.sequence_mode,
            dial_offset: steps,
            freq_base: a.frequency,
            sequence_mode_base: if !a.sequence_mode { 0 } else { a.sequence_mode_base },
            ..a
        }
    } else {
        a
    };
    let toggled1 = toggled || hold;
    let released = !pressed && b.was_pressed;
    let a2 = if released && start is Some {
        let short = !toggled1 && since(now, start->0) < HOLD_TIME && since(now, a1.last_freq_toggle)
            >= FREQ_TOGGLE_HYSTERESIS;
        let at = if short {
            if a1.sequence_mode {
                AppModel {
                    sequence_display_detailed: !a1.sequence_display_detailed,
                    last_freq_toggle: now,
                    ..a1
                }
            } else {
                AppModel {
                    step_rate: if a1.step_rate == 1 { 10 } else { 1 },
                    last_freq_toggle: now,
                    ..a1
                }
            }
        } else {
            a1
        };
        AppModel { dial_offset: steps, freq_base: at.frequency, ..at }
    } else {
        a1
    };
    let b2 = ButtonTracker {
        was_pressed: pressed,
        press_start: if released { None } else { start },
        mode_toggled: toggled1,
    };
    (a2, b2, hold && !a.sequence_mode)
}

/// The dial and switching part of a pass: the state after it, the MOSFET
/// state it applies, and whether it pauses.
///
/// In frequency mode a turned dial sets the frequency, and once a step time
/// has passed since the last switch the next step of the selected sequence
/// is applied. In sequence mode a turned dial selects the sequence, nothing
/// is switched, and the pass pauses.
pub open spec fn dial_pass(a: AppModel, now: u64, steps: i32) -> (AppModel, Option<MosfetState>, bool) {
    let turned = steps != a.last_rotary_steps;
    if !a.sequence_mode {
        let a1 = if turned {
            AppModel {
                frequency: dialed_frequency(a.freq_base, steps, a.dial_offset, a.step_rate),
                last_rotary_steps: steps,
                ..a
            }
        } else {
            a
        };
        if since(now, a1.last_step_time) >= spec_step_time(a1.frequency) {
            let s = spec_state_definition(
                spec_sequence(a1.sequence_sel - 1)[a1.current_step as int] as int,
            );
            (
                AppModel {
                    last_step_time: now,
                    current_step: ((a1.current_step + 1) % 4) as usize,
                    ..a1
                },
                Some(s),
                false,
            )
        } else {
            (a1, None, false)
        }
    } else {
        let a1 = if turned {
            AppModel {
                sequence_sel: dialed_sequence(steps, a.dial_offset, a.sequence_mode_base),
                last_rotary_steps: steps,
                ..a
            }
        } else {
            a
        };
        (a1, None, true)
    }
}

/// One whole pass at time `now`, with the encoder count `steps` and the
/// button down when `pressed`.
pub open spec fn spec_step(c: ControllerModel, now: u64, steps: i32, pressed: bool) -> (
    ControllerModel,
    Tick,
) {
    let (a1, b1, off) = button_pass(c.app, c.button, now, steps, pressed);
    let (a2, switch_to, pause) = dial_pass(a1, now, steps);
    (
        ControllerModel { app: a2, button: b1 },
        Tick { all_off: off, switch_to, pause },
    )
}

/// The controller at start-up.
pub open spec fn initial_controller(now: u64, steps: i32) -> ControllerModel {
    ControllerModel {
        app: AppModel { dial_offset: steps, last_rotary_steps: steps, ..initial_app(now) },
        button: ButtonTracker { was_pressed: false, press_start: None, mode_toggled: false },
    }
}

impl Controller {
    /// The controller at start-up at time `now`, with the encoder at
    /// `steps`: the dial is based there, the button is up.
    pub fn new(now: u64, steps: i32) -> (c: Self)
        ensures
            c@ == initial_controller(now, steps),
    {
        let mut app = AppState::new(now);
        app = AppState { dial_offset: steps, last_rotary_steps: steps, ..app };
        Controller {
            app,
            button: ButtonTracker { was_pressed: false, press_start: None, mode_toggled: false },
        }
    }

    /// The application state.
    pub fn app_state(&self) -> (a: &AppState)
        ensures
            a@ == self@.app,
            app_wf(a@),
    {
        proof {
            use_type_invariant(&self.app);
        }
        &self.app
    }

    /// The button tracking.
    pub fn button_tracker(&self) -> (b: ButtonTracker)
        ensures
            b == self@.button,
    {
        self.button
    }

    /// One main-loop pass at time `now`, with the encoder count `steps` and
    /// the button down when `button_pressed`: updates the state and says
    /// what to do to the MOSFETs.
    pub fn step(&mut self, now: u64, steps: i32, button_pressed: bool) -> (tick: Tick)
        ensures
            (final(self)@, tick) == spec_step(old(self)@, now, steps, button_pressed),
            app_wf(final(self)@.app),
    {
        let (app1, button, all_off) = self.app.button_pass(self.button, now, steps, button_pressed);
        let (app2, switch_to, pause) = app1.dial_pass(now, steps);
        proof {
            use_type_invariant(&app2);
        }
        self.app = app2;
        self.button = button;
        Tick { all_off, switch_to, pause }
    }
}

/// The frequency the dial gives (see `dialed_frequency`).
pub fn dial_frequency(freq_base: u32, steps: i32, dial_offset: i32, step_rate: u32) -> (f: u32)
    ensures
        f == dialed_frequency(freq_base, steps, dial_offset, step_rate),
        MIN_FREQ <= f <= MAX_FREQ,
        ({
            let turned: int = steps - dial_offset;
            let increment: int = if step_rate == 1 { 1 } else { 10 };
            let target: int = freq_base + turned * increment;
            i32::MIN <= turned <= i32::MAX ==> {
                &&& target < MIN_FREQ ==> f == MIN_FREQ
                &&& target > MAX_FREQ ==> f == MAX_FREQ
                &&& MIN_FREQ <= target <= MAX_FREQ ==> f == target
            }
        }),
{
    let increment: i64 = if step_rate == 1 {
        1
    } else {
        10
    };
    let turned = steps.wrapping_sub(dial_offset) as i64;
    let target: i64 = freq_base as i64 + turned * increment;
    if target < MIN_FREQ as i64 {
        MIN_FREQ
    } else if target > MAX_FREQ as i64 {
        MAX_FREQ
    } else {
        target as u32
    }
}

/// The sequence the dial selects (see `dialed_sequence`).
pub fn dial_sequence(steps: i32, dial_offset: i32, mode_base: i32) -> (s: usize)
    ensures
        s == dialed_sequence(steps, dial_offset, mode_base),
        1 <= s <= SEQUENCE_COUNT,
{
    let delta = steps.wrapping_sub(dial_offset).wrapping_sub(mode_base);
    let r: i32 = match 1i32.wrapping_add(delta).checked_rem_euclid(8) {
        Some(r) => r,
        None => 0,
    };
    if r == 0 {
        8
    } else {
        r as usize
    }
}

impl AppState {
    /// The button part of a pass (see `button_pass`).
    fn button_pass(&self, tracker: ButtonTracker, now: u64, steps: i32, button_pressed: bool) -> (r: (
        AppState,
        ButtonTracker,
        bool,
    ))
        ensures
            (r.0@, r.1, r.2) == button_pass(self@, tracker, now, steps, button_pressed),
            r.0@.frequency == self@.frequency,
    {
        proof {
            use_type_invariant(self);
        }
        let mut a = AppState { ..*self };
        let was_pressed = tracker.was_pressed;
        let mut press_start = tracker.press_start;
        let mut mode_toggled = tracker.mode_toggled;
        if button_pressed && !was_pressed {
            press_start = Some(now);
            mode_toggled = false;
        }
        let mut all_off = false;
        if button_pressed {
            if let Some(start) = press_start {
                if !mode_toggled && now.saturating_sub(start) >= HOLD_TIME {
                    let entering = !a.sequence_mode;
                    a = AppState {
                        sequence_mode: entering,
                        dial_offset: steps,
                        freq_base: a.frequency,
                        sequence_mode_base: if entering {
                            0
                        } else {
                            a.sequence_mode_base
                        },
                        ..a
                    };
                    mode_toggled = true;
                    all_off = entering;
                }
            }
        }
        if !button_pressed && was_pressed {
            if let Some(start) = press_start {
                let duration = now.saturating_sub(start);
                if !mode_toggled && duration < HOLD_TIME && now.saturating_sub(a.last_freq_toggle)
                    >= FREQ_TOGGLE_HYSTERESIS {
                    if a.sequence_mode {
                        a = AppState {
                            sequence_display_detailed: !a.sequence_display_detailed,
                            last_freq_toggle: now,
                            ..a
                        };
                    } else {
                        a = AppState {
                            step_rate: if a.step_rate == 1 {
                                10
                            } else {
                                1
                            },
                            last_freq_toggle: now,
                            ..a
                        };
                    }
                }
                a = AppState { dial_offset: steps, freq_base: a.frequency, ..a };
            }
            press_start = None;
        }
        (a, ButtonTracker { was_pressed: button_pressed, press_start, mode_toggled }, all_off)
    }

    /// The dial and switching part of a pass (see `dial_pass`).
    fn dial_pass(&self, now: u64, steps: i32) -> (r: (AppState, Option<MosfetState>, bool))
        ensures
            (r.0@, r.1, r.2) == dial_pass(self@, now, steps),
    {
        proof {
            use_type_invariant(self);
        }
        if !self.sequence_mode {
            let mut a = AppState { ..*self };
            if steps != a.last_rotary_steps {
                let f = dial_frequency(a.freq_base, steps, a.dial_offset, a.step_rate);
                a = AppState { frequency: f, last_rotary_steps: steps, ..a };
            }
            let step_time = a.step_time();
            if now.saturating_sub(a.last_step_time) >= step_time {
                let pattern = sequence(a.sequence_sel - 1);
                let state_index = pattern[a.current_step];
                proof {
                    crate::mosfet::lemma_sequences_index_states(
                        a.sequence_sel - 1,
                        a.current_step as int,
                    );
                }
                let s = state_definition(state_index);
                let next = AppState {
                    last_step_time: now,
                    current_step: (a.current_step + 1) % 4,
                    ..a
                };
                (next, Some(s), false)
            } else {
                (a, None, false)
            }
        } else {
            let mut a = AppState { ..*self };
            if steps != a.last_rotary_steps {
                let sel = dial_sequence(steps, a.dial_offset, a.sequence_mode_base);
                a = AppState { sequence_sel: sel, last_rotary_steps: steps, ..a };
            }
            (a, None, true)
        }
    }
}

/// What the display shows for a state: the frequency in frequency mode;
/// in sequence mode the sequence number, or its steps in the detailed view.
pub open spec fn display_view(a: AppModel, brightness: u8) -> Seq<BusOp> {
    if !a.sequence_mode {
        display_ops(frequency_digits(a.frequency), Some(2), brightness)
    } else {
        display_ops(
            sequence_digits(
                a.sequence_sel,
                a.sequence_display_detailed,
                spec_sequence(a.sequence_sel - 1),
            ),
            sequence_point(a.sequence_display_detailed),
            brightness,
        )
    }
}

/// The display waveform for the state.
pub fn update_display(state: &AppState, display: &TM1637) -> (ops: Vec<BusOp>)
    ensures
        ops@ == display_view(state@, display@),
        !state@.sequence_mode ==> ops@ == display_ops(
            frequency_digits(state@.frequency),
            Some(2),
            display@,
        ),
{
    proof {
        use_type_invariant(state);
    }
    if !state.sequence_mode {
        display.display_frequency(state.frequency)
    } else {
        let seq = sequence(state.sequence_sel - 1);
        let seq_arr: [usize; 4] = [seq[0], seq[1], seq[2], seq[3]];
        assert(seq_arr@ =~= seq@);
        display.display_sequence(state.sequence_sel, state.sequence_display_detailed, &seq_arr)
    }
}

/// Every pass keeps the state well formed: the frequency stays within
/// 0.1 Hz to 10 kHz, the sequence number within 1 to 8, the resolution x1
/// or x10.
pub proof fn lemma_step_keeps_state_well_formed(c: ControllerModel, now: u64, steps: i32, pressed: bool)
    requires
        app_wf(c.app),
    ensures
        app_wf(spec_step(c, now, steps, pressed).0.app),
{
    let (a1, b1, off) = button_pass(c.app, c.button, now, steps, pressed);
    lemma_dialed_sequence_mod_8(steps, a1.dial_offset, a1.sequence_mode_base);
}

/// Sequence mode keeps the MOSFETs off: entering it switches them all off,
/// and no pass that ends in sequence mode switches anything; it pauses
/// instead. Only entering sequence mode switches them all off.
pub proof fn lemma_sequence_mode_keeps_outputs_off(c: ControllerModel, now: u64, steps: i32, pressed: bool)
    ensures
        spec_step(c, now, steps, pressed).0.app.sequence_mode ==> spec_step(
            c,
            now,
            steps,
            pressed,
        ).1.switch_to is None && spec_step(c, now, steps, pressed).1.pause,
        (!c.app.sequence_mode && spec_step(c, now, steps, pressed).0.app.sequence_mode) ==> spec_step(
            c,
            now,
            steps,
            pressed,
        ).1.all_off,
        spec_step(c, now, steps, pressed).1.all_off ==> !c.app.sequence_mode && spec_step(
            c,
            now,
            steps,
            pressed,
        ).0.app.sequence_mode,
        !spec_step(c, now, steps, pressed).0.app.sequence_mode ==> !spec_step(
            c,
            now,
            steps,
            pressed,
        ).1.pause,
{
}

/// Holding the button for `HOLD_TIME` switches modes, and a press switches
/// modes at most once however long it is held.
pub proof fn lemma_hold_switches_mode_once(c: ControllerModel, now: u64, steps: i32)
    ensures
        (c.button.was_pressed && c.button.mode_toggled) ==> spec_step(
            c,
            now,
            steps,
            true,
        ).0.app.sequence_mode == c.app.sequence_mode,
        (c.button.was_pressed && !c.button.mode_toggled && c.button.press_start is Some && since(
            now,
            c.button.press_start->0,
        ) >= HOLD_TIME) ==> (spec_step(c, now, steps, true).0.app.sequence_mode
            == !c.app.sequence_mode && spec_step(c, now, steps, true).0.button.mode_toggled),
        spec_step(c, now, steps, true).0.app.sequence_mode != c.app.sequence_mode ==> spec_step(
            c,
            now,
            steps,
            true,
        ).0.button.mode_toggled,
{
}

/// A short press, released before `HOLD_TIME` and at least
/// `FREQ_TOGGLE_HYSTERESIS` after the last toggle, toggles the dial
/// resolution between x1 and x10 in frequency mode and the detailed view
/// in sequence mode. Any other release toggles neither. Every release
/// re-bases the dial at the current frequency.
pub proof fn lemma_short_press_toggles(c: ControllerModel, now: u64, steps: i32)
    requires
        c.button.was_pressed,
        c.button.press_start is Some,
        app_wf(c.app),
    ensures
        ({
            let post = spec_step(c, now, steps, false).0;
            let short = !c.button.mode_toggled && since(now, c.button.press_start->0) < HOLD_TIME
                && since(now, c.app.last_freq_toggle) >= FREQ_TOGGLE_HYSTERESIS;
            &&& post.app.sequence_mode == c.app.sequence_mode
            &&& (short && !c.app.sequence_mode) ==> post.app.step_rate == (if c.app.step_rate == 1 {
                10u32
            } else {
                1u32
            }) && post.app.sequence_display_detailed == c.app.sequence_display_detailed
            &&& (short && c.app.sequence_mode) ==> post.app.sequence_display_detailed
                == !c.app.sequence_display_detailed && post.app.step_rate == c.app.step_rate
            &&& short ==> post.app.last_freq_toggle == now
            &&& !short ==> post.app.step_rate == c.app.step_rate
                && post.app.sequence_display_detailed == c.app.sequence_display_detailed
                && post.app.last_freq_toggle == c.app.last_freq_toggle
            &&& post.app.dial_offset == steps
            &&& post.button.press_start is None
        }),
{
}

/// The dial in sequence mode: the selection is one plus the detents turned
/// since the dial was re-based, counted round the eight sequences, and the
/// encoder's wrap-around does not disturb the count.
pub proof fn lemma_dialed_sequence_mod_8(steps: i32, dial_offset: i32, mode_base: i32)
    ensures
        1 <= dialed_sequence(steps, dial_offset, mode_base) <= 8,
        dialed_sequence(steps, dial_offset, mode_base) as int % 8 == (1 + steps - dial_offset
            - mode_base) % 8,
{
    let d1 = vstd::wrapping::i32_specs::wrapping_sub(steps, dial_offset);
    let d2 = vstd::wrapping::i32_specs::wrapping_sub(d1, mode_base);
    let w = vstd::wrapping::i32_specs::wrapping_add(1, d2);
    let exact: int = 1 + steps - dial_offset - mode_base;
    let m: int = 0x1_0000_0000;
    let k1: int = if steps - dial_offset > i32::MAX {
        -1
    } else if steps - dial_offset < i32::MIN {
        1
    } else {
        0
    };
    let k2: int = if d1 - mode_base > i32::MAX {
        -1
    } else if d1 - mode_base < i32::MIN {
        1
    } else {
        0
    };
    let k3: int = if 1 + d2 > i32::MAX {
        -1
    } else if 1 + d2 < i32::MIN {
        1
    } else {
        0
    };
    assert(d1 == steps - dial_offset + k1 * m);
    assert(d2 == d1 - mode_base + k2 * m);
    assert(w == 1 + d2 + k3 * m);
    let k: int = k1 + k2 + k3;
    assert(w == exact + k * m);
    assert((exact + k * m) % 8 == exact % 8) by (nonlinear_arith)
        requires
            m == 0x1_0000_0000,
    {
        assert(k * m == (k * 0x2000_0000) * 8);
        vstd::arithmetic::div_mod::lemma_mod_multiples_vanish(k * 0x2000_0000, exact, 8);
    }
}

/// The dial in frequency mode: the frequency stays within 0.1 Hz to 10 kHz;
/// within those bounds it is the base frequency plus the detents turned
/// since the dial was re-based, each worth 0.1 Hz at x1 and 1 Hz at x10;
/// below them it is 0.1 Hz and above them 10 kHz, at either resolution.
pub proof fn lemma_dialed_frequency(freq_base: u32, steps: i32, dial_offset: i32, step_rate: u32)
    ensures
        MIN_FREQ <= dialed_frequency(freq_base, steps, dial_offset, step_rate) <= MAX_FREQ,
        ({
            let turned: int = steps - dial_offset;
            let increment: int = if step_rate == 1 { 1 } else { 10 };
            let target: int = freq_base + turned * increment;
            &&& (i32::MIN <= turned <= i32::MAX && MIN_FREQ <= target <= MAX_FREQ)
                ==> dialed_frequency(freq_base, steps, dial_offset, step_rate) == target
            &&& (i32::MIN <= turned <= i32::MAX && target < MIN_FREQ) ==> dialed_frequency(
                freq_base,
                steps,
                dial_offset,
                step_rate,
            ) == MIN_FREQ
            &&& (i32::MIN <= turned <= i32::MAX && target > MAX_FREQ) ==> dialed_frequency(
                freq_base,
                steps,
                dial_offset,
                step_rate,
            ) == MAX_FREQ
        }),
{
}

/// Switching follows the selected sequence: a pass that switches applies
/// the current step of the selected sequence, advances to the next step
/// (round the four), and only does so once the step time at the current
/// frequency has passed since the last switch.
pub proof fn lemma_switching_follows_sequence(c: ControllerModel, now: u64, steps: i32, pressed: bool)
    requires
        app_wf(c.app),
    ensures
        ({
            let (a1, b1, off) = button_pass(c.app, c.button, now, steps, pressed);
            let (post, tick) = spec_step(c, now, steps, pressed);
            tick.switch_to is Some ==> {
                &&& !post.app.sequence_mode
                &&& tick.switch_to->0 == spec_state_definition(
                    spec_sequence(post.app.sequence_sel - 1)[a1.current_step as int] as int,
                )
                &&& post.app.current_step == (a1.current_step + 1) % 4
                &&& post.app.last_step_time == now
                &&& since(now, a1.last_step_time) >= spec_step_time(post.app.frequency)
            }
        }),
        ({
            let (a1, b1, off) = button_pass(c.app, c.button, now, steps, pressed);
            let (post, tick) = spec_step(c, now, steps, pressed);
            (!post.app.sequence_mode && since(now, a1.last_step_time) >= spec_step_time(
                post.app.frequency,
            )) ==> tick.switch_to is Some
        }),
{
}

/// The step time is half the period, to the nearest nanosecond: `t * f`
/// is within half a frequency unit of half a second (in tenth-hertz
/// nanoseconds), and at 10 kHz it is 50 us.
pub proof fn lemma_step_time_is_half_period(frequency: u32)
    requires
        MIN_FREQ <= frequency <= MAX_FREQ,
    ensures
        spec_step_time(frequency) * frequency <= 5_000_000_000 + frequency / 2,
        5_000_000_000 + frequency / 2 < (spec_step_time(frequency) + 1) * frequency,
        spec_step_time(frequency) >= 50_000,
{
    let t = spec_step_time(frequency);
    let n: int = 5_000_000_000int + (frequency / 2) as int;
    assert(t == n / (frequency as int));
    assert(n / (frequency as int) >= 50_000) by (nonlinear_arith)
        requires
            1 <= frequency <= 100_000,
            n >= 5_000_000_000,
    {
        vstd::arithmetic::div_mod::lemma_div_is_ordered_by_denominator(n, frequency as int, 100_000);
        vstd::arithmetic::div_mod::lemma_div_is_ordered(5_000_000_000int, n, 100_000);
    }
    assert(t * frequency <= n < (t + 1) * frequency) by (nonlinear_arith)
        requires
            t == n / (frequency as int),
            frequency >= 1,
    {
        vstd::arithmetic::div_mod::lemma_fundamental_div_mod(n, frequency as int);
    }
}

/// Nothing happens on its own: with the button up before and now and the
/// dial where the last pass saw it, a pass changes nothing, except that in
/// frequency mode the next step is switched once the step time is up; in
/// sequence mode the pass only pauses.
pub proof fn lemma_quiet_pass(c: ControllerModel, now: u64)
    requires
        !c.button.was_pressed,
    ensures
        ({
            let (post, tick) = spec_step(c, now, c.app.last_rotary_steps, false);
            &&& !tick.all_off
            &&& post.button == c.button
            &&& (c.app.sequence_mode || since(now, c.app.last_step_time) < spec_step_time(
                c.app.frequency,
            )) ==> post.app == c.app && tick.switch_to is None
            &&& tick.pause == c.app.sequence_mode
        }),
{
}

/// The button never touches the frequency: a pass's button part leaves it
/// as it was, and whenever it re-bases the dial (on a hold or a release) it
/// re-bases at that frequency. So a hold that switches modes, with the dial
/// not turned, leaves the switching frequency as the user set it.
pub proof fn lemma_button_keeps_frequency(
    c: ControllerModel,
    now: u64,
    steps: i32,
    pressed: bool,
)
    requires
        app_wf(c.app),
    ensures
        button_pass(c.app, c.button, now, steps, pressed).0.frequency == c.app.frequency,
        button_pass(c.app, c.button, now, steps, pressed).0.freq_base == c.app.freq_base
            || button_pass(c.app, c.button, now, steps, pressed).0.freq_base == c.app.frequency,
        button_pass(c.app, c.button, now, steps, pressed).0.dial_offset != c.app.dial_offset
            ==> button_pass(c.app, c.button, now, steps, pressed).0.freq_base == c.app.frequency,
        button_pass(c.app, c.button, now, steps, pressed).0.sequence_mode != c.app.sequence_mode
            ==> button_pass(c.app, c.button, now, steps, pressed).0.freq_base == c.app.frequency
            && button_pass(c.app, c.button, now, steps, pressed).0.dial_offset == steps,
        steps == c.app.last_rotary_steps ==> spec_step(c, now, steps, pressed).0.app.frequency
            == c.app.frequency,
{
}

proof fn lemma_decimal_digits_unique(v: int, d0: int, d1: int, d2: int, d3: int)
    requires
        0 <= v <= 9999,
        0 <= d0 < 10,
        0 <= d1 < 10,
        0 <= d2 < 10,
        0 <= d3 < 10,
        1000 * d0 + 100 * d1 + 10 * d2 + d3 == v,
    ensures
        d0 == (v / 1000) % 10,
        d1 == (v / 100) % 10,
        d2 == (v / 10) % 10,
        d3 == v % 10,
{
    assert(d3 == v % 10 && (v / 10) == 100 * d0 + 10 * d1 + d2) by (nonlinear_arith)
        requires
            0 <= d3 < 10,
            1000 * d0 + 100 * d1 + 10 * d2 + d3 == v,
            0 <= d0,
            0 <= d1,
            0 <= d2,
    ;
    let w = v / 10;
    assert(d2 == w % 10 && (w / 10) == 10 * d0 + d1) by (nonlinear_arith)
        requires
            0 <= d2 < 10,
            w == 100 * d0 + 10 * d1 + d2,
            0 <= d0,
            0 <= d1,
    ;
    let x = w / 10;
    assert(d1 == x % 10 && x / 10 == d0) by (nonlinear_arith)
        requires
            0 <= d1 < 10,
            x == 10 * d0 + d1,
            0 <= d0,
    ;
    assert(v / 100 == x) by (nonlinear_arith)
        requires
            w == v / 10,
            x == w / 10,
            v >= 0,
    ;
    assert(v / 1000 == x / 10) by (nonlinear_arith)
        requires
            w == v / 10,
            x == w / 10,
            v >= 0,
    ;
}

/// In frequency mode the display shows the frequency the controller runs
/// at: four decimal digits that, read as a number, give the frequency in
/// tenths of a hertz (capped at 9999, that is 999.9 Hz), with the decimal
/// point after the third digit.
pub proof fn lemma_display_shows_frequency(a: AppModel, brightness: u8, digits: Seq<u8>)
    requires
        !a.sequence_mode,
        digits.len() == 4,
        forall|i: int| 0 <= i < 4 ==> #[trigger] digits[i] < 10,
        1000 * digits[0] + 100 * digits[1] + 10 * digits[2] + digits[3] == (if a.frequency
            < 9999 {
            a.frequency
        } else {
            9999
        }),
    ensures
        display_view(a, brightness) == display_ops(digits, Some(2), brightness),
{
    let v: int = if a.frequency < 9999 { a.frequency as int } else { 9999 };
    assert(digits[0] < 10 && digits[1] < 10 && digits[2] < 10 && digits[3] < 10);
    lemma_decimal_digits_unique(v, digits[0] as int, digits[1] as int, digits[2] as int, digits[3] as int);
    assert(digits =~= frequency_digits(a.frequency));
}

/// In sequence mode the display shows the sequence that switching runs
/// (table entry `sequence_sel - 1`, as in the switching law): in the
/// detailed view each of its four steps plus one, without a decimal point;
/// otherwise the sequence number in the last digit with its decimal point.
pub proof fn lemma_display_shows_selected_sequence(a: AppModel, brightness: u8)
    requires
        a.sequence_mode,
        app_wf(a),
    ensures
        a.sequence_display_detailed ==> display_view(a, brightness) == display_ops(
            seq![
                (spec_sequence(a.sequence_sel - 1)[0] + 1) as u8,
                (spec_sequence(a.sequence_sel - 1)[1] + 1) as u8,
                (spec_sequence(a.sequence_sel - 1)[2] + 1) as u8,
                (spec_sequence(a.sequence_sel - 1)[3] + 1) as u8,
            ],
            None,
            brightness,
        ),
        !a.sequence_display_detailed ==> display_view(a, brightness) == display_ops(
            seq![BLANK, BLANK, BLANK, a.sequence_sel as u8],
            Some(3),
            brightness,
        ),
{
    let q = spec_sequence(a.sequence_sel - 1);
    crate::mosfet::lemma_sequences_index_states(a.sequence_sel - 1, 0);
    crate::mosfet::lemma_sequences_index_states(a.sequence_sel - 1, 1);
    crate::mosfet::lemma_sequences_index_states(a.sequence_sel - 1, 2);
    crate::mosfet::lemma_sequences_index_states(a.sequence_sel - 1, 3);
    if a.sequence_display_detailed {
        assert(sequence_digits(a.sequence_sel, true, q) =~= seq![
            (q[0] + 1) as u8,
            (q[1] + 1) as u8,
            (q[2] + 1) as u8,
            (q[3] + 1) as u8,
        ]);
    } else {
        assert(sequence_digits(a.sequence_sel, false, q) =~= seq![
            BLANK,
            BLANK,
            BLANK,
            a.sequence_sel as u8,
        ]);
    }
}

/// Only a long hold switches modes: the mode changes in a pass only when
/// the button is still down, was down at the last pass, has not switched
/// modes in this press yet, and went down at least `HOLD_TIME` ago.
pub proof fn lemma_mode_changes_only_on_hold(c: ControllerModel, now: u64, steps: i32, pressed: bool)
    ensures
        spec_step(c, now, steps, pressed).0.app.sequence_mode != c.app.sequence_mode ==> {
            &&& pressed
            &&& c.button.was_pressed
            &&& !c.button.mode_toggled
            &&& c.button.press_start is Some
            &&& since(now, c.button.press_start->0) >= HOLD_TIME
        },
{
}

/// The dial moves only the setting of the mode it is in: a pass that starts
/// and ends in frequency mode leaves the sequence selection alone, one that
/// starts and ends in sequence mode leaves the frequency alone, and in
/// sequence mode the selection moves only when the dial was turned.
pub proof fn lemma_dial_moves_own_setting(c: ControllerModel, now: u64, steps: i32, pressed: bool)
    ensures
        (!c.app.sequence_mode && !spec_step(c, now, steps, pressed).0.app.sequence_mode)
            ==> spec_step(c, now, steps, pressed).0.app.sequence_sel == c.app.sequence_sel,
        (c.app.sequence_mode && spec_step(c, now, steps, pressed).0.app.sequence_mode)
            ==> spec_step(c, now, steps, pressed).0.app.frequency == c.app.frequency,
        steps == c.app.last_rotary_steps ==> spec_step(c, now, steps, pressed).0.app.sequence_sel
            == c.app.sequence_sel,
{
}

} // verus!
