//! TM1637 7-segment display: the segment codes, the command bytes, and the
//! bus waveforms that put them on the CLK and DIO lines.

use vstd::prelude::*;
use crate::bus::{
    BusOp,
    start_ops,
    stop_ops,
    bit_ops,
    data_ops,
    ack_ops,
    write_byte_ops,
    bytes_ops,
    command_ops,
    line_events,
    line_levels,
    received_command,
    lemma_command_read_back,
    lemma_events_append,
};

verus! {

/// Data command: write data, auto-increment address.
pub const DATA_COMMAND: u8 = 0x40;

/// Address command: start at the first digit.
pub const ADDRESS_COMMAND: u8 = 0xC0;

/// Display control command: display on; the brightness goes in the low
/// three bits.
pub const DISPLAY_CONTROL: u8 = 0x88;

/// Digit code that shows nothing.
pub const BLANK: u8 = 10;

/// Digit code that shows a dash.
pub const DASH: u8 = 11;

/// Number of digit codes with a segment pattern.
pub const CODE_COUNT: u8 = 12;

/// Segment bit of the decimal point.
pub const DECIMAL_POINT: u8 = 0x80;

/// Segment patterns of the digit codes: 0 to 9, then blank, then dash.
pub open spec fn spec_segment_pattern(code: u8) -> u8 {
    if code == 0 {
        0x3F
    } else if code == 1 {
        0x06
    } else if code == 2 {
        0x5B
    } else if code == 3 {
        0x4F
    } else if code == 4 {
        0x66
    } else if code == 5 {
        0x6D
    } else if code == 6 {
        0x7D
    } else if code == 7 {
        0x07
    } else if code == 8 {
        0x7F
    } else if code == 9 {
        0x6F
    } else if code == DASH {
        0x40
    } else {
        0x00
    }
}

/// The segment pattern of a digit code.
pub fn segment_pattern(code: u8) -> (p: u8)
    requires
        code < CODE_COUNT,
    ensures
        p == spec_segment_pattern(code),
{
    match code {
        0 => 0x3F,
        1 => 0x06,
        2 => 0x5B,
        3 => 0x4F,
        4 => 0x66,
        5 => 0x6D,
        6 => 0x7D,
        7 => 0x07,
        8 => 0x7F,
        9 => 0x6F,
        10 => 0x00,
        _ => 0x40,
    }
}

/// The byte sent for one digit: its pattern (a code without one shows
/// blank), with the decimal point added when `point` holds.
pub open spec fn segment_byte(code: u8, point: bool) -> u8 {
    let base = if code < CODE_COUNT {
        spec_segment_pattern(code)
    } else {
        spec_segment_pattern(BLANK)
    };
    if point {
        base | DECIMAL_POINT
    } else {
        base
    }
}

/// The four digit bytes for `digits`, with the decimal point at
/// `decimal_pos` if that is one of the four positions.
pub open spec fn digit_bytes(digits: Seq<u8>, decimal_pos: Option<usize>) -> Seq<u8> {
    Seq::new(4, |i: int| segment_byte(digits[i], decimal_pos == Some(i as usize)))
}

/// The three commands that show `digits` at the given brightness.
pub open spec fn display_commands(digits: Seq<u8>, decimal_pos: Option<usize>, brightness: u8) -> Seq<
    Seq<u8>,
> {
    seq![
        seq![DATA_COMMAND],
        seq![ADDRESS_COMMAND] + digit_bytes(digits, decimal_pos),
        seq![DISPLAY_CONTROL | brightness],
    ]
}

/// The waveform that shows `digits`: the three display commands, one after
/// the other.
pub open spec fn display_ops(digits: Seq<u8>, decimal_pos: Option<usize>, brightness: u8) -> Seq<
    BusOp,
> {
    let c = display_commands(digits, decimal_pos, brightness);
    command_ops(c[0]) + command_ops(c[1]) + command_ops(c[2])
}

/// The digit codes for a frequency in tenths of a hertz: four decimal
/// digits of the value, capped at 9999.
pub open spec fn frequency_digits(tenths: u32) -> Seq<u8> {
    let c = if tenths < 9999 { tenths } else { 9999 };
    seq![((c / 1000) % 10) as u8, ((c / 100) % 10) as u8, ((c / 10) % 10) as u8, (c % 10) as u8]
}

/// The digit codes for a sequence number: the number's last digit alone,
/// or, in the detailed view, the sequence's steps counted from one.
pub open spec fn sequence_digits(seq: usize, detailed: bool, sequence: Seq<usize>) -> Seq<u8> {
    if !detailed {
        seq![BLANK, BLANK, BLANK, (seq % 10) as u8]
    } else {
        Seq::new(4, |i: int| (vstd::wrapping::usize_specs::wrapping_add(sequence[i], 1)) as u8)
    }
}

/// The decimal point of a sequence display: after the number when only the
/// number is shown.
pub open spec fn sequence_point(detailed: bool) -> Option<usize> {
    if detailed {
        None
    } else {
        Some(3)
    }
}

/// Pushes the start condition.
fn start(ops: &mut Vec<BusOp>)
    ensures
        final(ops)@ == old(ops)@ + start_ops(),
{
    ops.push(BusOp::DioLow);
    ops.push(BusOp::Delay);
    assert(final(ops)@ =~= old(ops)@ + start_ops());
}

/// Pushes the stop condition.
fn stop(ops: &mut Vec<BusOp>)
    ensures
        final(ops)@ == old(ops)@ + stop_ops(),
{
    ops.push(BusOp::DioLow);
    ops.push(BusOp::Delay);
    ops.push(BusOp::ClkHigh);
    ops.push(BusOp::Delay);
    ops.push(BusOp::DioHigh);
    ops.push(BusOp::Delay);
    assert(final(ops)@ =~= old(ops)@ + stop_ops());
}

/// Pushes one byte, least significant bit first, then the acknowledge
/// clock. The acknowledge from the display is not read.
fn write_byte(ops: &mut Vec<BusOp>, data: u8)
    ensures
        final(ops)@ == old(ops)@ + write_byte_ops(data),
{
    let ghost first = ops@;
    let mut byte = data;
    for i in 0..8u32
        invariant
            first + data_ops(data as nat, 8) == ops@ + data_ops(byte as nat, (8 - i) as nat),
    {
        let ghost before = ops@;
        let ghost b = byte;
        ops.push(BusOp::ClkLow);
        ops.push(BusOp::Delay);
        let low_bit = byte & 0x01 != 0;
        assert(low_bit == (b % 2 == 1)) by (bit_vector)
            requires
                low_bit == (b & 0x01 != 0),
        ;
        if low_bit {
            ops.push(BusOp::DioHigh);
        } else {
            ops.push(BusOp::DioLow);
        }
        ops.push(BusOp::Delay);
        ops.push(BusOp::ClkHigh);
        ops.push(BusOp::Delay);
        byte = byte >> 1;
        assert(byte == b / 2) by (bit_vector)
            requires
                byte == b >> 1,
        ;
        assert(ops@ =~= before + bit_ops(b % 2 == 1));
        assert(data_ops(b as nat, (8 - i) as nat) == bit_ops(b as nat % 2 == 1) + data_ops(
            b as nat / 2,
            (8 - i - 1) as nat,
        ));
        assert(before + data_ops(b as nat, (8 - i) as nat) =~= ops@ + data_ops(
            byte as nat,
            (8 - (i + 1)) as nat,
        ));
    }
    assert(data_ops(byte as nat, 0) =~= Seq::<BusOp>::empty());
    assert(ops@ =~= first + data_ops(data as nat, 8));
    let ghost mid = ops@;
    ops.push(BusOp::ClkLow);
    ops.push(BusOp::DioHigh);
    ops.push(BusOp::Delay);
    ops.push(BusOp::ClkHigh);
    ops.push(BusOp::Delay);
    ops.push(BusOp::ClkLow);
    assert(ops@ =~= mid + ack_ops());
    assert(ops@ =~= first + write_byte_ops(data));
}

/// Pushes one whole command.
fn write_command(ops: &mut Vec<BusOp>, bytes: &Vec<u8>)
    ensures
        final(ops)@ == old(ops)@ + command_ops(bytes@),
{
    let ghost first = ops@;
    start(ops);
    let n = bytes.len();
    for i in 0..n
        invariant
            n == bytes@.len(),
            ops@ == first + start_ops() + bytes_ops(bytes@.take(i as int)),
    {
        let ghost before = ops@;
        write_byte(ops, bytes[i]);
        proof {
            lemma_bytes_ops_push(bytes@.take(i as int), bytes@[i as int]);
            assert(bytes@.take(i as int).push(bytes@[i as int]) =~= bytes@.take(i + 1));
        }
    }
    assert(bytes@.take(n as int) =~= bytes@);
    stop(ops);
    assert(ops@ =~= first + command_ops(bytes@));
}

proof fn lemma_bytes_ops_push(s: Seq<u8>, b: u8)
    ensures
        bytes_ops(s.push(b)) == bytes_ops(s) + write_byte_ops(b),
    decreases s.len(),
{
    if s.len() == 0 {
        assert(s.push(b).drop_first() =~= Seq::<u8>::empty());
        assert(s.push(b)[0] == b);
        assert(bytes_ops(Seq::<u8>::empty()) =~= Seq::<BusOp>::empty());
        assert(bytes_ops(s.push(b)) =~= bytes_ops(s) + write_byte_ops(b));
    } else {
        lemma_bytes_ops_push(s.drop_first(), b);
        assert(s.push(b).drop_first() =~= s.drop_first().push(b));
        assert(s.push(b)[0] == s[0]);
        assert(bytes_ops(s.push(b)) == write_byte_ops(s[0]) + bytes_ops(s.drop_first().push(b)));
        assert(bytes_ops(s.push(b)) =~= bytes_ops(s) + write_byte_ops(b));
    }
}

/// The TM1637 display: its brightness, from 0 to 7. The lines themselves
/// belong to the caller, who plays the waveforms that this type builds.
pub struct TM1637 {
    brightness: u8,
}

impl View for TM1637 {
    type V = u8;

    closed spec fn view(&self) -> u8 {
        self.brightness
    }
}

impl TM1637 {
    #[verifier::type_invariant]
    spec fn brightness_in_range(self) -> bool {
        self.brightness <= 7
    }

    /// A display at brightness 3.
    pub fn new() -> (d: Self)
        ensures
            d@ == 3,
    {
        TM1637 { brightness: 3 }
    }

    /// The brightness, which never exceeds 7.
    pub fn brightness(&self) -> (b: u8)
        ensures
            b == self@,
            b <= 7,
    {
        proof {
            use_type_invariant(self);
        }
        self.brightness
    }

    /// Sets the brightness to `level`, capped at 7.
    pub fn set_brightness(&mut self, level: u8)
        ensures
            final(self)@ == (if level < 7 { level } else { 7 }),
    {
        self.brightness = if level < 7 { level } else { 7 };
    }

    /// The waveform that shows four digit codes (0 to 9, 10 for blank, 11
    /// for a dash; any other code shows blank), with a decimal point at
    /// `decimal_pos` when that is a position from 0 to 3.
    pub fn display(&self, digits: [u8; 4], decimal_pos: Option<usize>) -> (ops: Vec<BusOp>)
        ensures
            ops@ == display_ops(digits@, decimal_pos, self@),
    {
        let mut ops: Vec<BusOp> = Vec::new();
        let mut data: Vec<u8> = Vec::new();
        data.push(DATA_COMMAND);
        write_command(&mut ops, &data);
        assert(ops@ =~= command_ops(seq![DATA_COMMAND]));
        let mut address: Vec<u8> = Vec::new();
        address.push(ADDRESS_COMMAND);
        for i in 0..4usize
            invariant
                address@ == seq![ADDRESS_COMMAND] + digit_bytes(digits@, decimal_pos).take(
                    i as int,
                ),
        {
            let digit = digits[i];
            let mut segment = if digit < CODE_COUNT {
                segment_pattern(digit)
            } else {
                segment_pattern(BLANK)
            };
            let point = match decimal_pos {
                Some(p) => p == i,
                None => false,
            };
            if point {
                segment = segment | DECIMAL_POINT;
            }
            address.push(segment);
            assert(address@ =~= seq![ADDRESS_COMMAND] + digit_bytes(digits@, decimal_pos).take(
                i + 1,
            ));
        }
        assert(digit_bytes(digits@, decimal_pos).take(4) =~= digit_bytes(digits@, decimal_pos));
        write_command(&mut ops, &address);
        let control = DISPLAY_CONTROL | self.brightness;
        let mut brightness_command: Vec<u8> = Vec::new();
        brightness_command.push(control);
        write_command(&mut ops, &brightness_command);
        proof {
            let c = display_commands(digits@, decimal_pos, self@);
            assert(c[0] =~= seq![DATA_COMMAND]);
            assert(c[1] == address@);
            assert(c[2] =~= brightness_command@);
            assert(ops@ =~= display_ops(digits@, decimal_pos, self@));
        }
        ops
    }

    /// The waveform that shows a frequency given in tenths of a hertz: its
    /// four digits, capped at 999.9, with the decimal point after the third.
    pub fn display_frequency(&self, tenths: u32) -> (ops: Vec<BusOp>)
        ensures
            ops@ == display_ops(frequency_digits(tenths), Some(2), self@),
    {
        let clamped = if tenths < 9999 {
            tenths
        } else {
            9999
        };
        let digits: [u8; 4] = [
            ((clamped / 1000) % 10) as u8,
            ((clamped / 100) % 10) as u8,
            ((clamped / 10) % 10) as u8,
            (clamped % 10) as u8,
        ];
        assert(digits@ =~= frequency_digits(tenths));
        self.display(digits, Some(2))
    }

    /// The waveform that shows sequence number `seq` (1 to 8): the number with a
    /// decimal point, or, when `detailed`, the steps of `sequence` counted
    /// from one.
    pub fn display_sequence(&self, seq: usize, detailed: bool, sequence: &[usize; 4]) -> (ops: Vec<
        BusOp,
    >)
        ensures
            ops@ == display_ops(
                sequence_digits(seq, detailed, sequence@),
                sequence_point(detailed),
                self@,
            ),
    {
        if !detailed {
            let digit = (seq % 10) as u8;
            let digits: [u8; 4] = [BLANK, BLANK, BLANK, digit];
            assert(digits@ =~= sequence_digits(seq, detailed, sequence@));
            self.display(digits, Some(3))
        } else {
            let digits: [u8; 4] = [
                sequence[0].wrapping_add(1) as u8,
                sequence[1].wrapping_add(1) as u8,
                sequence[2].wrapping_add(1) as u8,
                sequence[3].wrapping_add(1) as u8,
            ];
            assert(digits@ =~= sequence_digits(seq, detailed, sequence@));
            self.display(digits, None)
        }
    }

    /// The waveform that blanks all four digits.
    pub fn clear(&self) -> (ops: Vec<BusOp>)
        ensures
            ops@ == display_ops(seq![BLANK, BLANK, BLANK, BLANK], None, self@),
    {
        let digits: [u8; 4] = [BLANK, BLANK, BLANK, BLANK];
        assert(digits@ =~= seq![BLANK, BLANK, BLANK, BLANK]);
        self.display(digits, None)
    }
}

/// Read-back of a display update: from an idle bus, the waveform of
/// `display` is, on the wire, its three commands one after the other; the
/// bus is idle after each, and a receiver reads each back byte for byte.
pub proof fn lemma_display_read_back(digits: Seq<u8>, decimal_pos: Option<usize>, brightness: u8)
    ensures
        line_levels(display_ops(digits, decimal_pos, brightness), true, true) == (true, true),
        line_events(display_ops(digits, decimal_pos, brightness), true, true) == line_events(
            command_ops(display_commands(digits, decimal_pos, brightness)[0]),
            true,
            true,
        ) + line_events(command_ops(display_commands(digits, decimal_pos, brightness)[1]), true, true)
            + line_events(
            command_ops(display_commands(digits, decimal_pos, brightness)[2]),
            true,
            true,
        ),
        forall|k: int|
            0 <= k < 3 ==> received_command(
                line_events(
                    command_ops(#[trigger] display_commands(digits, decimal_pos, brightness)[k]),
                    true,
                    true,
                ),
            ) == Some(
                display_commands(digits, decimal_pos, brightness)[k].map_values(|x: u8| x as nat),
            ),
{
    let c = display_commands(digits, decimal_pos, brightness);
    let a = command_ops(c[0]);
    let b = command_ops(c[1]);
    let d = command_ops(c[2]);
    lemma_command_read_back(c[0]);
    lemma_command_read_back(c[1]);
    lemma_command_read_back(c[2]);
    lemma_events_append(a, b, true, true);
    lemma_events_append(a + b, d, true, true);
    assert forall|k: int|
        0 <= k < 3 implies received_command(
        line_events(command_ops(#[trigger] display_commands(digits, decimal_pos, brightness)[k]), true, true),
    ) == Some(display_commands(digits, decimal_pos, brightness)[k].map_values(|x: u8| x as nat)) by {
        lemma_command_read_back(c[k]);
    }
}

/// The decimal point shows at position `decimal_pos` and nowhere else:
/// no segment pattern uses the decimal-point bit.
pub proof fn lemma_decimal_point_only_where_asked(digits: Seq<u8>, decimal_pos: Option<usize>, i: int)
    requires
        0 <= i < 4,
    ensures
        (digit_bytes(digits, decimal_pos)[i] & DECIMAL_POINT != 0) == (decimal_pos == Some(
            i as usize,
        )),
        digit_bytes(digits, decimal_pos)[i] & 0x7F == (if digits[i] < CODE_COUNT {
            spec_segment_pattern(digits[i])
        } else {
            spec_segment_pattern(BLANK)
        }),
{
    let code = digits[i];
    let base = if code < CODE_COUNT {
        spec_segment_pattern(code)
    } else {
        spec_segment_pattern(BLANK)
    };
    assert(base < 0x80);
    let x = digit_bytes(digits, decimal_pos)[i];
    if decimal_pos == Some(i as usize) {
        assert(x == base | 0x80);
        assert((base | 0x80) & 0x80 != 0 && (base | 0x80) & 0x7F == base) by (bit_vector)
            requires
                base < 0x80,
        ;
    } else {
        assert(x == base);
        assert(base & 0x80 == 0 && base & 0x7F == base) by (bit_vector)
            requires
                base < 0x80,
        ;
    }
}

/// A frequency shows as its four decimal digits: read as a decimal number
/// they give the frequency in tenths of a hertz, capped at 9999.
pub proof fn lemma_frequency_digits_value(tenths: u32)
    ensures
        forall|i: int| 0 <= i < 4 ==> #[trigger] frequency_digits(tenths)[i] < 10,
        1000 * frequency_digits(tenths)[0] + 100 * frequency_digits(tenths)[1] + 10
            * frequency_digits(tenths)[2] + frequency_digits(tenths)[3] == (if tenths < 9999 {
            tenths
        } else {
            9999
        }),
{
    let c: u32 = if tenths < 9999 { tenths } else { 9999 };
    let d = frequency_digits(tenths);
    assert(d[0] == (c / 1000) % 10);
    assert(d[1] == (c / 100) % 10);
    assert(d[2] == (c / 10) % 10);
    assert(d[3] == c % 10);
    assert(1000 * ((c / 1000) % 10) + 100 * ((c / 100) % 10) + 10 * ((c / 10) % 10) + c % 10 == c)
        by (nonlinear_arith)
        requires
            c <= 9999,
    ;
}

} // verus!
