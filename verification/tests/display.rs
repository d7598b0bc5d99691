use switch_charging::bus::BusOp;
use switch_charging::tm1637::{segment_pattern, TM1637};

/// Plays a waveform on two simulated lines, starting idle (both high), and
/// returns the bytes of each command as a TM1637 would read them, with the
/// final levels of CLK and DIO.
fn receive(ops: &[BusOp]) -> (Vec<Vec<u8>>, bool, bool) {
    let mut clk = true;
    let mut dio = true;
    let mut commands: Vec<Vec<u8>> = Vec::new();
    let mut bits: Vec<bool> = Vec::new();
    let mut in_command = false;
    for op in ops {
        match op {
            BusOp::ClkHigh => {
                if !clk && in_command {
                    bits.push(dio);
                }
                clk = true;
            }
            BusOp::ClkLow => clk = false,
            BusOp::DioHigh => {
                if clk && !dio {
                    // stop condition
                    let mut bytes = Vec::new();
                    for group in bits.chunks(9) {
                        if group.len() == 9 {
                            let mut b: u8 = 0;
                            for (i, bit) in group[..8].iter().enumerate() {
                                if *bit {
                                    b |= 1 << i;
                                }
                            }
                            bytes.push(b);
                        }
                    }
                    commands.push(bytes);
                    bits.clear();
                    in_command = false;
                }
                dio = true;
            }
            BusOp::DioLow => {
                if clk && dio {
                    in_command = true;
                    bits.clear();
                }
                dio = false;
            }
            BusOp::Delay => {}
        }
    }
    (commands, clk, dio)
}

fn segs(codes: [u8; 4]) -> Vec<u8> {
    codes.iter().map(|c| segment_pattern(*c)).collect()
}

#[test]
fn segment_patterns_match_the_table() {
    let expected: [u8; 12] = [0x3F, 0x06, 0x5B, 0x4F, 0x66, 0x6D, 0x7D, 0x07, 0x7F, 0x6F, 0x00, 0x40];
    for (code, pattern) in expected.iter().enumerate() {
        assert_eq!(segment_pattern(code as u8), *pattern);
    }
}

#[test]
fn new_display_has_brightness_three() {
    let d = TM1637::new();
    assert_eq!(d.brightness(), 3);
}

#[test]
fn brightness_is_capped_at_seven() {
    let mut d = TM1637::new();
    d.set_brightness(10);
    assert_eq!(d.brightness(), 7);
    d.set_brightness(5);
    assert_eq!(d.brightness(), 5);
    d.set_brightness(0);
    assert_eq!(d.brightness(), 0);
}

#[test]
fn display_sends_three_commands_and_leaves_bus_idle() {
    let d = TM1637::new();
    let ops = d.display([1, 2, 3, 4], Some(2));
    let (commands, clk, dio) = receive(&ops);
    assert!(clk && dio);
    assert_eq!(commands.len(), 3);
    assert_eq!(commands[0], vec![0x40]);
    assert_eq!(commands[1], vec![0xC0, 0x06, 0x5B, 0x4F | 0x80, 0x66]);
    assert_eq!(commands[2], vec![0x8B]);
}

#[test]
fn display_waveform_has_the_expected_length() {
    let d = TM1637::new();
    let ops = d.display([0, 0, 0, 0], None);
    // start 2 + stop 6 per command; 54 operations per byte; 7 bytes.
    assert_eq!(ops.len(), 3 * 8 + 7 * 54);
    assert_eq!(ops[0], BusOp::DioLow);
    assert_eq!(ops[1], BusOp::Delay);
    assert_eq!(ops[2], BusOp::ClkLow);
}

#[test]
fn display_brightness_goes_into_control_command() {
    let mut d = TM1637::new();
    d.set_brightness(7);
    let (commands, _, _) = receive(&d.display([10, 10, 10, 10], None));
    assert_eq!(commands[2], vec![0x8F]);
    d.set_brightness(0);
    let (commands, _, _) = receive(&d.display([10, 10, 10, 10], None));
    assert_eq!(commands[2], vec![0x88]);
}

#[test]
fn invalid_digit_codes_show_blank() {
    let d = TM1637::new();
    let (commands, _, _) = receive(&d.display([12, 200, 11, 10], None));
    assert_eq!(commands[1], vec![0xC0, 0x00, 0x00, 0x40, 0x00]);
}

#[test]
fn decimal_point_only_at_requested_position() {
    let d = TM1637::new();
    for pos in 0..4usize {
        let (commands, _, _) = receive(&d.display([8, 8, 8, 8], Some(pos)));
        for i in 0..4 {
            let byte = commands[1][i + 1];
            assert_eq!(byte & 0x80 != 0, i == pos);
            assert_eq!(byte & 0x7F, 0x7F);
        }
    }
    let (commands, _, _) = receive(&d.display([8, 8, 8, 8], Some(4)));
    assert!(commands[1][1..].iter().all(|b| b & 0x80 == 0));
}

#[test]
fn frequency_one_and_a_half_hertz_shows_001_5() {
    let d = TM1637::new();
    let (commands, _, _) = receive(&d.display_frequency(15));
    let mut expected = vec![0xC0];
    let mut digits = segs([0, 0, 1, 5]);
    digits[2] |= 0x80;
    expected.extend(digits);
    assert_eq!(commands[1], expected);
}

#[test]
fn frequency_display_is_capped_at_9999() {
    let d = TM1637::new();
    assert_eq!(d.display_frequency(100_000), d.display([9, 9, 9, 9], Some(2)));
    assert_eq!(d.display_frequency(9999), d.display([9, 9, 9, 9], Some(2)));
    assert_eq!(d.display_frequency(1234), d.display([1, 2, 3, 4], Some(2)));
    assert_eq!(d.display_frequency(0), d.display([0, 0, 0, 0], Some(2)));
}

#[test]
fn sequence_number_view() {
    let d = TM1637::new();
    assert_eq!(d.display_sequence(3, false, &[0, 2, 1, 3]), d.display([10, 10, 10, 3], Some(3)));
    assert_eq!(d.display_sequence(12, false, &[0, 2, 1, 3]), d.display([10, 10, 10, 2], Some(3)));
}

#[test]
fn sequence_detailed_view() {
    let d = TM1637::new();
    assert_eq!(d.display_sequence(3, true, &[0, 2, 1, 3]), d.display([1, 3, 2, 4], None));
    assert_eq!(d.display_sequence(1, true, &[5, 5, 5, 5]), d.display([6, 6, 6, 6], None));
    assert_eq!(d.display_sequence(7, true, &[0, 3, 2, 1]), d.display([1, 4, 3, 2], None));
    assert_eq!(d.display_sequence(8, true, &[4, 4, 4, 4]), d.display([5, 5, 5, 5], None));
    // Sequence 7 shows its steps 1432: digit bytes 1, 4, 3, 2.
    let (commands, _, _) = receive(&d.display_sequence(7, true, &[0, 3, 2, 1]));
    assert_eq!(commands[1], vec![0xC0, 0x06, 0x66, 0x4F, 0x5B]);
}

#[test]
fn clear_blanks_all_digits() {
    let d = TM1637::new();
    let (commands, _, _) = receive(&d.clear());
    assert_eq!(commands[1], vec![0xC0, 0, 0, 0, 0]);
}

#[test]
fn dio_changes_only_with_clk_low_inside_commands() {
    let d = TM1637::new();
    let ops = d.display([8, 1, 0, 11], Some(1));
    let mut clk = true;
    let mut starts = 0;
    let mut stops = 0;
    let mut rises = 0;
    for op in ops.iter() {
        match op {
            BusOp::ClkHigh => {
                if !clk {
                    rises += 1;
                }
                clk = true;
            }
            BusOp::ClkLow => clk = false,
            BusOp::DioHigh if clk => stops += 1,
            BusOp::DioLow if clk => starts += 1,
            _ => {}
        }
    }
    // One start and one stop per command; nothing else moves DIO with CLK high.
    assert_eq!(starts, 3);
    assert_eq!(stops, 3);
    // Nine rising edges per byte and one in each stop.
    assert_eq!(rises, 7 * 9 + 3);
}
