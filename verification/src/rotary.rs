//! Rotary encoder and push button: what their interrupt handlers record and
//! what the main loop reads back. Times are nanoseconds on a monotonic
//! clock; the caller owns the pins and the interrupts.

use vstd::prelude::*;

verus! {

/// The step count of a rotary encoder: one step per detent, up when DT
/// reads high at the falling edge of CLK, down otherwise.
pub struct RotaryEncoder {
    steps: i32,
}

impl View for RotaryEncoder {
    type V = i32;

    closed spec fn view(&self) -> i32 {
        self.steps
    }
}

/// The count after one falling edge of CLK: one more when DT reads high,
/// one less when low, wrapping around at the ends of `i32`.
pub open spec fn stepped(steps: i32, dt_high: bool) -> i32 {
    if dt_high {
        vstd::wrapping::i32_specs::wrapping_add(steps, 1)
    } else {
        vstd::wrapping::i32_specs::wrapping_sub(steps, 1)
    }
}

impl RotaryEncoder {
    /// An encoder at step 0.
    pub fn new() -> (r: Self)
        ensures
            r@ == 0,
    {
        RotaryEncoder { steps: 0 }
    }

    /// The current step count.
    pub fn steps(&self) -> (s: i32)
        ensures
            s == self@,
    {
        self.steps
    }

    /// Records a falling edge of CLK, with the level DT read at that edge.
    pub fn on_clk_falling(&mut self, dt_high: bool)
        ensures
            final(self)@ == stepped(old(self)@, dt_high),
    {
        if dt_high {
            self.steps = self.steps.wrapping_add(1);
        } else {
            self.steps = self.steps.wrapping_sub(1);
        }
    }
}

/// Each detent moves the count by exactly one, and a detent each way brings
/// it back, wrap-around included.
pub proof fn lemma_detents_cancel(steps: i32)
    ensures
        stepped(stepped(steps, true), false) == steps,
        stepped(stepped(steps, false), true) == steps,
        steps < i32::MAX ==> stepped(steps, true) == steps + 1,
        steps > i32::MIN ==> stepped(steps, false) == steps - 1,
{
}

/// The count after a run of falling edges of CLK, the i-th with DT reading
/// high when `dt_levels[i]` holds.
pub open spec fn count_after(steps: i32, dt_levels: Seq<bool>) -> i32
    decreases dt_levels.len(),
{
    if dt_levels.len() == 0 {
        steps
    } else {
        stepped(count_after(steps, dt_levels.drop_last()), dt_levels.last())
    }
}

/// Detents up minus detents down in a run of edges.
pub open spec fn net_detents(dt_levels: Seq<bool>) -> int
    decreases dt_levels.len(),
{
    if dt_levels.len() == 0 {
        0
    } else {
        net_detents(dt_levels.drop_last()) + if dt_levels.last() {
            1int
        } else {
            -1int
        }
    }
}

/// The encoder counts detents: after any run of edges the count is the
/// starting count plus the detents up minus the detents down, wrapped into
/// `i32` (equal to it whenever that fits in `i32`).
pub proof fn lemma_count_is_net_detents(steps: i32, dt_levels: Seq<bool>)
    ensures
        (count_after(steps, dt_levels) - (steps + net_detents(dt_levels))) % 0x1_0000_0000 == 0,
        i32::MIN <= steps + net_detents(dt_levels) <= i32::MAX ==> count_after(steps, dt_levels)
            == steps + net_detents(dt_levels),
    decreases dt_levels.len(),
{
    let m: int = 0x1_0000_0000;
    let c = count_after(steps, dt_levels);
    let x = steps + net_detents(dt_levels);
    if dt_levels.len() > 0 {
        let rest = dt_levels.drop_last();
        lemma_count_is_net_detents(steps, rest);
        let c0 = count_after(steps, rest);
        let x0 = steps + net_detents(rest);
        let d: int = if dt_levels.last() { 1 } else { -1 };
        let j: int = if c0 + d > i32::MAX {
            -1
        } else if c0 + d < i32::MIN {
            1
        } else {
            0
        };
        assert(c == c0 + d + j * m);
        assert(x == x0 + d);
        assert(c - x == (c0 - x0) + j * m);
        vstd::arithmetic::div_mod::lemma_mod_multiples_vanish(j, c0 - x0, m);
        assert((j * m + (c0 - x0)) % m == (c0 - x0) % m);
    }
    if i32::MIN <= x <= i32::MAX {
        vstd::arithmetic::div_mod::lemma_fundamental_div_mod(c - x, m);
        assert(c - x == 0) by (nonlinear_arith)
            requires
                c - x == m * ((c - x) / m) + (c - x) % m,
                (c - x) % m == 0,
                -m < c - x < m,
                m == 0x1_0000_0000,
        ;
    }
}

/// The state of a push button wired active-low: whether it is held, when
/// the last press began (until that press is collected), and when the
/// button last came up after it.
pub struct Button {
    pressed: bool,
    press_time: Option<u64>,
    release_time: Option<u64>,
}

/// The model of a button: held or not, the start of the uncollected press,
/// and the release that ended it.
pub struct ButtonModel {
    pub pressed: bool,
    pub press_time: Option<u64>,
    pub release_time: Option<u64>,
}

impl View for Button {
    type V = ButtonModel;

    closed spec fn view(&self) -> ButtonModel {
        ButtonModel {
            pressed: self.pressed,
            press_time: self.press_time,
            release_time: self.release_time,
        }
    }
}

/// Time from `start` to `now`, zero when `now` comes first.
pub open spec fn elapsed(now: u64, start: u64) -> u64 {
    if now >= start {
        (now - start) as u64
    } else {
        0
    }
}

/// A button that has never been pressed.
pub open spec fn initial_button() -> ButtonModel {
    ButtonModel { pressed: false, press_time: None, release_time: None }
}

/// The button after a falling edge (it goes down) at `now`.
pub open spec fn pressed_at(b: ButtonModel, now: u64) -> ButtonModel {
    ButtonModel { pressed: true, press_time: Some(now), release_time: None }
}

/// The button after a rising edge (it comes up) at `now`.
pub open spec fn released_at(b: ButtonModel, now: u64) -> ButtonModel {
    ButtonModel { pressed: false, press_time: b.press_time, release_time: Some(now) }
}

impl Button {
    /// A released button with no press recorded.
    pub fn new() -> (b: Self)
        ensures
            b@ == initial_button(),
    {
        Button { pressed: false, press_time: None, release_time: None }
    }

    /// Records a falling edge (the button goes down) at time `now`.
    pub fn on_press(&mut self, now: u64)
        ensures
            final(self)@ == pressed_at(old(self)@, now),
    {
        self.pressed = true;
        self.press_time = Some(now);
        self.release_time = None;
    }

    /// Records a rising edge (the button comes up) at time `now`.
    pub fn on_release(&mut self, now: u64)
        ensures
            final(self)@ == released_at(old(self)@, now),
    {
        self.pressed = false;
        self.release_time = Some(now);
    }

    /// Whether the button is held down.
    pub fn is_pressed(&self) -> (p: bool)
        ensures
            p == self@.pressed,
    {
        self.pressed
    }

    /// How long the button has been held at time `now`, if it is held.
    pub fn hold_duration(&self, now: u64) -> (d: Option<u64>)
        ensures
            d == held_for(self@, now),
    {
        if self.is_pressed() {
            match self.press_time {
                Some(t) => Some(now.saturating_sub(t)),
                None => None,
            }
        } else {
            None
        }
    }

    /// When the button has just been released: the duration of its last
    /// press, from going down to coming up, collected once (the press is
    /// forgotten).
    pub fn get_press_duration(&mut self) -> (d: Option<u64>)
        ensures
            (final(self)@, d) == collect_press(old(self)@),
    {
        if !self.is_pressed() {
            if let Some(time) = self.press_time.take() {
                return match self.release_time {
                    Some(up) => Some(up.saturating_sub(time)),
                    None => None,
                };
            }
        }
        None
    }
}

/// How long a held button has been down at `now`; nothing when it is up.
pub open spec fn held_for(b: ButtonModel, now: u64) -> Option<u64> {
    if b.pressed {
        match b.press_time {
            Some(t) => Some(elapsed(now, t)),
            None => None,
        }
    } else {
        None
    }
}

/// Collecting a finished press: the button afterwards, and the press's
/// duration (release time minus press time) if the button is up and a
/// press is recorded.
pub open spec fn collect_press(b: ButtonModel) -> (ButtonModel, Option<u64>) {
    if !b.pressed {
        match b.press_time {
            Some(t) => (
                ButtonModel { press_time: None, ..b },
                match b.release_time {
                    Some(up) => Some(elapsed(up, t)),
                    None => None,
                },
            ),
            None => (b, None),
        }
    } else {
        (b, None)
    }
}

/// The button after a run of edges, each `(true, t)` a falling edge (down)
/// and `(false, t)` a rising edge (up) at time `t`.
pub open spec fn after_edges(b: ButtonModel, edges: Seq<(bool, u64)>) -> ButtonModel
    decreases edges.len(),
{
    if edges.len() == 0 {
        b
    } else {
        let prev = after_edges(b, edges.drop_last());
        if edges.last().0 {
            pressed_at(prev, edges.last().1)
        } else {
            released_at(prev, edges.last().1)
        }
    }
}

/// The button follows its last edge: after any run of edges it is held
/// exactly when the last edge was a falling one (and, with no edge, as it
/// was before).
pub proof fn lemma_pressed_follows_last_edge(b: ButtonModel, edges: Seq<(bool, u64)>)
    ensures
        after_edges(b, edges).pressed == (if edges.len() == 0 {
            b.pressed
        } else {
            edges.last().0
        }),
{
}

/// A press is reported once, with its own duration: whatever came before,
/// after a falling edge at `t0` and then a rising edge at `t1`, collecting
/// gives `t1 - t0` (the time of the call does not enter), and collecting
/// again gives nothing. While the button is held since `t0`, collecting
/// gives nothing and the hold time at `now` counts from `t0`.
pub proof fn lemma_press_reported_once(
    b: ButtonModel,
    edges: Seq<(bool, u64)>,
    t0: u64,
    t1: u64,
    now: u64,
)
    ensures
        ({
            let held = after_edges(b, edges.push((true, t0)));
            &&& held_for(held, now) == Some(elapsed(now, t0))
            &&& collect_press(held).1 is None
        }),
        ({
            let up = after_edges(b, edges.push((true, t0)).push((false, t1)));
            &&& collect_press(up).1 == Some(elapsed(t1, t0))
            &&& collect_press(collect_press(up).0).1 is None
            &&& held_for(up, now) is None
        }),
{
    let e1 = edges.push((true, t0));
    let e2 = e1.push((false, t1));
    assert(e1.drop_last() =~= edges);
    assert(e2.drop_last() =~= e1);
}

} // verus!
