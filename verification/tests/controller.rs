use switch_charging::controller::{
    update_display, AppState, Controller, FREQ_TOGGLE_HYSTERESIS, HOLD_TIME, MAX_FREQ, MIN_FREQ,
};
use switch_charging::mosfet::{sequence, state_definition, MosfetState};
use switch_charging::tm1637::TM1637;

const MS: u64 = 1_000_000;

#[test]
fn initial_state() {
    let a = AppState::new(5);
    assert_eq!(a.frequency(), 10);
    assert_eq!(a.step_rate(), 1);
    assert_eq!(a.sequence_sel(), 1);
    assert!(!a.sequence_mode());
    assert!(!a.sequence_display_detailed());
    assert_eq!(a.current_step(), 0);
}

#[test]
fn step_time_is_half_the_period() {
    // 1 Hz: 0.5 s between switches.
    assert_eq!(AppState::new(0).step_time(), 500_000_000);
    // 0.3 Hz: 1.6666666666 s rounds to the nearest nanosecond.
    let mut c = Controller::new(0, 0);
    c.step(1, -7, false);
    assert_eq!(c.app_state().frequency(), 3);
    assert_eq!(c.app_state().step_time(), 1_666_666_667);
    // 10 kHz: 50 us between switches.
    let mut c = Controller::new(0, 0);
    c.step(0, 100_000, false);
    assert_eq!(c.app_state().frequency(), MAX_FREQ);
    assert_eq!(c.app_state().step_time(), 50_000);
}

#[test]
fn dial_sets_frequency_in_tenths_at_x1() {
    let mut c = Controller::new(0, 0);
    c.step(1, 5, false);
    assert_eq!(c.app_state().frequency(), 15);
    c.step(2, -3, false);
    assert_eq!(c.app_state().frequency(), 7);
}

#[test]
fn frequency_is_clamped() {
    let mut c = Controller::new(0, 0);
    c.step(1, -50, false);
    assert_eq!(c.app_state().frequency(), MIN_FREQ);
    c.step(2, 1_000_000, false);
    assert_eq!(c.app_state().frequency(), MAX_FREQ);
}

fn short_press(c: &mut Controller, t: u64, steps: i32) -> u64 {
    c.step(t, steps, true);
    c.step(t + 100 * MS, steps, false);
    t + 100 * MS
}

#[test]
fn short_press_toggles_step_rate() {
    let mut c = Controller::new(0, 0);
    let t = short_press(&mut c, 2_000 * MS, 0);
    assert_eq!(c.app_state().step_rate(), 10);
    // The dial is re-based on release: 1 Hz per detent from here.
    c.step(t + 1, 2, false);
    assert_eq!(c.app_state().frequency(), 30);
    let t = short_press(&mut c, t + 2_000 * MS, 2);
    assert_eq!(c.app_state().step_rate(), 1);
    c.step(t + 1, 3, false);
    assert_eq!(c.app_state().frequency(), 31);
}

#[test]
fn short_press_within_hysteresis_is_ignored() {
    let mut c = Controller::new(0, 0);
    // The start-up time counts as the last toggle.
    short_press(&mut c, 100 * MS, 0);
    assert_eq!(c.app_state().step_rate(), 1);
    let t = short_press(&mut c, FREQ_TOGGLE_HYSTERESIS, 0);
    assert_eq!(c.app_state().step_rate(), 10);
    short_press(&mut c, t + 500 * MS, 0);
    assert_eq!(c.app_state().step_rate(), 10);
}

#[test]
fn hold_enters_sequence_mode_once_and_switches_off() {
    let mut c = Controller::new(0, 0);
    let t0 = 10_000 * MS;
    let tick = c.step(t0, 0, true);
    assert!(!tick.all_off);
    let tick = c.step(t0 + HOLD_TIME - 1, 0, true);
    assert!(!tick.all_off);
    assert!(!c.app_state().sequence_mode());
    let tick = c.step(t0 + HOLD_TIME, 0, true);
    assert!(tick.all_off);
    assert!(tick.switch_to.is_none());
    assert!(tick.pause);
    assert!(c.app_state().sequence_mode());
    // Still held: no second toggle.
    let tick = c.step(t0 + 3 * HOLD_TIME, 0, true);
    assert!(!tick.all_off);
    assert!(c.app_state().sequence_mode());
    // Release after a hold: no short-press toggle.
    c.step(t0 + 4 * HOLD_TIME, 0, false);
    assert!(c.app_state().sequence_mode());
    assert!(!c.app_state().sequence_display_detailed());
    assert_eq!(c.app_state().step_rate(), 1);
}

#[test]
fn dial_selects_sequence_round_eight() {
    let mut c = Controller::new(0, 100);
    let t0 = 10_000 * MS;
    c.step(t0, 100, true);
    c.step(t0 + HOLD_TIME, 100, true);
    c.step(t0 + HOLD_TIME + MS, 100, false);
    assert!(c.app_state().sequence_mode());
    let expected = [(101, 2), (106, 7), (107, 8), (108, 1), (99, 8), (92, 1), (91, 8)];
    let mut t = t0 + HOLD_TIME + 2 * MS;
    for (steps, sel) in expected.iter() {
        let tick = c.step(t, *steps, false);
        assert!(tick.switch_to.is_none());
        assert_eq!(c.app_state().sequence_sel(), *sel);
        t += MS;
    }
}

#[test]
fn dial_selection_survives_encoder_wrap() {
    let mut c = Controller::new(0, i32::MAX);
    let t0 = 10_000 * MS;
    c.step(t0, i32::MAX, true);
    c.step(t0 + HOLD_TIME, i32::MAX, true);
    // One detent past the top wraps the count to i32::MIN.
    c.step(t0 + HOLD_TIME + MS, i32::MIN, true);
    assert_eq!(c.app_state().sequence_sel(), 2);
}

#[test]
fn short_press_in_sequence_mode_toggles_detail() {
    let mut c = Controller::new(0, 0);
    let t0 = 10_000 * MS;
    c.step(t0, 0, true);
    c.step(t0 + HOLD_TIME, 0, true);
    c.step(t0 + HOLD_TIME + MS, 0, false);
    short_press(&mut c, t0 + 5_000 * MS, 0);
    assert!(c.app_state().sequence_display_detailed());
    assert_eq!(c.app_state().step_rate(), 1);
}

#[test]
fn switching_runs_the_selected_sequence_in_order() {
    let mut c = Controller::new(0, 0);
    // Select sequence 2, the standard rotation [0, 1, 2, 3].
    let t0 = 10_000 * MS;
    c.step(t0, 0, true);
    c.step(t0 + HOLD_TIME, 0, true);
    c.step(t0 + HOLD_TIME + MS, 0, false);
    c.step(t0 + HOLD_TIME + 2 * MS, 1, false);
    assert_eq!(c.app_state().sequence_sel(), 2);
    // Leave sequence mode.
    let t1 = t0 + 2_000 * MS;
    c.step(t1, 1, true);
    c.step(t1 + HOLD_TIME, 1, true);
    c.step(t1 + HOLD_TIME + MS, 1, false);
    assert!(!c.app_state().sequence_mode());
    assert_eq!(c.app_state().frequency(), 10);
    let pattern = sequence(1);
    let first = c.app_state().current_step();
    let mut t = t1 + 2_000 * MS;
    let mut applied: Vec<MosfetState> = Vec::new();
    for _ in 0..8 {
        let tick = c.step(t, 1, false);
        if let Some(s) = tick.switch_to {
            applied.push(s);
        }
        // Too early for the next switch: half the period is 0.5 s.
        let tick = c.step(t + 499 * MS, 1, false);
        assert!(tick.switch_to.is_none());
        t += 500 * MS;
    }
    assert_eq!(applied.len(), 8);
    for (k, s) in applied.iter().enumerate() {
        assert_eq!(*s, state_definition(pattern[(first + k) % 4]));
    }
}

#[test]
fn first_sequence_keeps_everything_off() {
    let mut c = Controller::new(0, 0);
    let tick = c.step(600 * MS, 0, false);
    assert_eq!(tick.switch_to, Some(MosfetState::new(false, false, false, false)));
}

#[test]
fn display_follows_mode() {
    let mut c = Controller::new(0, 0);
    let d = TM1637::new();
    c.step(1, 5, false);
    assert_eq!(update_display(c.app_state(), &d), d.display_frequency(15));
    let t0 = 10_000 * MS;
    c.step(t0, 5, true);
    c.step(t0 + HOLD_TIME, 5, true);
    c.step(t0 + HOLD_TIME + MS, 5, false);
    c.step(t0 + HOLD_TIME + 2 * MS, 7, false);
    assert_eq!(c.app_state().sequence_sel(), 3);
    assert_eq!(update_display(c.app_state(), &d), d.display_sequence(3, false, &[0, 1, 3, 2]));
}

#[test]
fn quiet_pass_changes_nothing() {
    let mut c = Controller::new(0, 4);
    let tick = c.step(100 * MS, 4, false);
    assert!(!tick.all_off);
    assert!(tick.switch_to.is_none());
    assert!(!tick.pause);
    assert_eq!(c.app_state().frequency(), 10);
    assert_eq!(c.app_state().current_step(), 0);
    let b = c.button_tracker();
    assert!(!b.was_pressed);
    assert!(b.press_start.is_none());
}
