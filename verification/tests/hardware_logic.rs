use switch_charging::mosfet::{all_off, apply_state, sequence, state_definition, PinLevels, MosfetState};
use switch_charging::rotary::{Button, RotaryEncoder};

#[test]
fn state_table_matches_the_definitions() {
    assert_eq!(state_definition(0), MosfetState::new(true, false, true, false));
    assert_eq!(state_definition(1), MosfetState::new(true, false, false, true));
    assert_eq!(state_definition(2), MosfetState::new(false, true, true, false));
    assert_eq!(state_definition(3), MosfetState::new(false, true, false, true));
    assert_eq!(state_definition(4), MosfetState::new(true, true, true, true));
    assert_eq!(state_definition(5), MosfetState::new(false, false, false, false));
}

#[test]
fn sequence_table_matches_the_readme() {
    assert_eq!(sequence(0), [5, 5, 5, 5]);
    assert_eq!(sequence(1), [0, 1, 2, 3]);
    assert_eq!(sequence(2), [0, 1, 3, 2]);
    assert_eq!(sequence(3), [0, 2, 1, 3]);
    assert_eq!(sequence(4), [0, 2, 3, 1]);
    assert_eq!(sequence(5), [0, 3, 1, 2]);
    assert_eq!(sequence(6), [0, 3, 2, 1]);
    assert_eq!(sequence(7), [4, 4, 4, 4]);
}

#[test]
fn p_channel_is_active_low_and_n_channel_active_high() {
    let levels = apply_state(MosfetState::new(true, false, true, false));
    assert_eq!(levels, PinLevels { p1_high: false, p2_high: true, n1_high: true, n2_high: false });
    let levels = apply_state(state_definition(4));
    assert_eq!(levels, PinLevels { p1_high: false, p2_high: false, n1_high: true, n2_high: true });
}

#[test]
fn all_off_drives_p_high_and_n_low() {
    assert_eq!(all_off(), PinLevels { p1_high: true, p2_high: true, n1_high: false, n2_high: false });
}

#[test]
fn encoder_counts_detents() {
    let mut r = RotaryEncoder::new();
    assert_eq!(r.steps(), 0);
    r.on_clk_falling(true);
    r.on_clk_falling(true);
    assert_eq!(r.steps(), 2);
    r.on_clk_falling(false);
    assert_eq!(r.steps(), 1);
    r.on_clk_falling(false);
    r.on_clk_falling(false);
    assert_eq!(r.steps(), -1);
}

#[test]
fn encoder_count_is_net_detents() {
    let mut r = RotaryEncoder::new();
    let dts = [true, true, false, true, true, true, false, false, true];
    for dt in dts.iter() {
        r.on_clk_falling(*dt);
    }
    // six up, three down
    assert_eq!(r.steps(), 3);
    assert_eq!(r.steps(), 3);
}

#[test]
fn button_hold_duration_while_held() {
    let mut b = Button::new();
    assert!(!b.is_pressed());
    assert_eq!(b.hold_duration(10), None);
    b.on_press(100);
    assert!(b.is_pressed());
    assert_eq!(b.hold_duration(350), Some(250));
    assert_eq!(b.get_press_duration(), None);
    b.on_release(400);
    assert!(!b.is_pressed());
    assert_eq!(b.hold_duration(500), None);
}

#[test]
fn button_press_duration_is_press_to_release_once() {
    let mut b = Button::new();
    assert_eq!(b.get_press_duration(), None);
    b.on_press(1_000);
    b.on_release(1_700);
    assert_eq!(b.get_press_duration(), Some(700));
    assert_eq!(b.get_press_duration(), None);
}

#[test]
fn button_follows_last_edge() {
    let mut b = Button::new();
    b.on_press(1);
    b.on_release(2);
    b.on_press(3);
    assert!(b.is_pressed());
    b.on_release(4);
    assert!(!b.is_pressed());
    assert_eq!(b.get_press_duration(), Some(1));
    b.on_release(5);
    assert!(!b.is_pressed());
}

#[test]
fn button_elapsed_saturates() {
    let mut b = Button::new();
    b.on_press(1_000);
    assert_eq!(b.hold_duration(500), Some(0));
}
