//! The two-wire bus of the TM1637: the operations a driver performs on the
//! CLK and DIO lines, the frames that carry a command, and what a receiver
//! sees on the lines.

use vstd::prelude::*;

verus! {

/// One operation on the bus: drive a line high or low, or wait one bit
/// delay.
#[derive(Clone, Copy, Debug, PartialEq, Eq, Structural)]
pub enum BusOp {
    ClkHigh,
    ClkLow,
    DioHigh,
    DioLow,
    Delay,
}

/// Start condition: DIO falls while CLK is high.
pub open spec fn start_ops() -> Seq<BusOp> {
    seq![BusOp::DioLow, BusOp::Delay]
}

/// Stop condition: DIO low, CLK up, then DIO rises while CLK is high.
pub open spec fn stop_ops() -> Seq<BusOp> {
    seq![BusOp::DioLow, BusOp::Delay, BusOp::ClkHigh, BusOp::Delay, BusOp::DioHigh, BusOp::Delay]
}

/// One data bit: CLK down, DIO to the bit, CLK up.
pub open spec fn bit_ops(bit: bool) -> Seq<BusOp> {
    seq![
        BusOp::ClkLow,
        BusOp::Delay,
        if bit { BusOp::DioHigh } else { BusOp::DioLow },
        BusOp::Delay,
        BusOp::ClkHigh,
        BusOp::Delay,
    ]
}

/// The low `n` bits of `b`, least significant first.
pub open spec fn lsb_bits(b: nat, n: nat) -> Seq<bool>
    decreases n,
{
    if n == 0 {
        seq![]
    } else {
        seq![b % 2 == 1] + lsb_bits(b / 2, (n - 1) as nat)
    }
}

/// The operations that clock out the low `n` bits of `b`, least
/// significant first.
pub open spec fn data_ops(b: nat, n: nat) -> Seq<BusOp>
    decreases n,
{
    if n == 0 {
        seq![]
    } else {
        bit_ops(b % 2 == 1) + data_ops(b / 2, (n - 1) as nat)
    }
}

/// The acknowledge slot: DIO released, one more clock pulse.
pub open spec fn ack_ops() -> Seq<BusOp> {
    seq![BusOp::ClkLow, BusOp::DioHigh, BusOp::Delay, BusOp::ClkHigh, BusOp::Delay, BusOp::ClkLow]
}

/// One byte on the wire: eight data bits, then the acknowledge slot.
pub open spec fn write_byte_ops(b: u8) -> Seq<BusOp> {
    data_ops(b as nat, 8) + ack_ops()
}

/// A run of bytes on the wire.
pub open spec fn bytes_ops(bytes: Seq<u8>) -> Seq<BusOp>
    decreases bytes.len(),
{
    if bytes.len() == 0 {
        seq![]
    } else {
        write_byte_ops(bytes[0]) + bytes_ops(bytes.drop_first())
    }
}

/// A whole command: start condition, its bytes, stop condition.
pub open spec fn command_ops(bytes: Seq<u8>) -> Seq<BusOp> {
    start_ops() + bytes_ops(bytes) + stop_ops()
}

/// What a receiver observes on the lines.
#[derive(Clone, Copy, Debug, PartialEq, Eq, Structural)]
pub enum BusEvent {
    /// DIO fell while CLK was high.
    Start,
    /// DIO rose while CLK was high.
    Stop,
    /// CLK rose; the DIO level it sampled.
    Clock(bool),
}

/// The events that `ops` produce when the lines start at levels `clk` and
/// `dio` (`true` is high).
pub open spec fn line_events(ops: Seq<BusOp>, clk: bool, dio: bool) -> Seq<BusEvent>
    decreases ops.len(),
{
    if ops.len() == 0 {
        seq![]
    } else {
        let rest = ops.drop_first();
        match ops[0] {
            BusOp::ClkHigh => (if !clk {
                seq![BusEvent::Clock(dio)]
            } else {
                seq![]
            }) + line_events(rest, true, dio),
            BusOp::ClkLow => line_events(rest, false, dio),
            BusOp::DioHigh => (if clk && !dio {
                seq![BusEvent::Stop]
            } else {
                seq![]
            }) + line_events(rest, clk, true),
            BusOp::DioLow => (if clk && dio {
                seq![BusEvent::Start]
            } else {
                seq![]
            }) + line_events(rest, clk, false),
            BusOp::Delay => line_events(rest, clk, dio),
        }
    }
}

/// The levels of CLK and DIO after `ops`, starting from `clk` and `dio`.
pub open spec fn line_levels(ops: Seq<BusOp>, clk: bool, dio: bool) -> (bool, bool)
    decreases ops.len(),
{
    if ops.len() == 0 {
        (clk, dio)
    } else {
        let rest = ops.drop_first();
        match ops[0] {
            BusOp::ClkHigh => line_levels(rest, true, dio),
            BusOp::ClkLow => line_levels(rest, false, dio),
            BusOp::DioHigh => line_levels(rest, clk, true),
            BusOp::DioLow => line_levels(rest, clk, false),
            BusOp::Delay => line_levels(rest, clk, dio),
        }
    }
}

/// The number whose bits, least significant first, are `bits`.
pub open spec fn bits_value(bits: Seq<bool>) -> nat
    decreases bits.len(),
{
    if bits.len() == 0 {
        0
    } else {
        (if bits[0] { 1nat } else { 0nat }) + 2 * bits_value(bits.drop_first())
    }
}

/// How a receiver groups the clocked bits of a command: eight data bits and
/// an acknowledge slot per byte; a trailing group shorter than that carries
/// no byte.
pub open spec fn group_bytes(bits: Seq<bool>) -> Seq<nat>
    decreases bits.len(),
{
    if bits.len() < 9 {
        seq![]
    } else {
        seq![bits_value(bits.take(8))] + group_bytes(bits.skip(9))
    }
}

/// The bytes of one command as a receiver reads them from the events of the
/// lines: a start condition, clock pulses only, a stop condition.
pub open spec fn received_command(events: Seq<BusEvent>) -> Option<Seq<nat>> {
    if events.len() >= 2 && events[0] == BusEvent::Start && events.last() == BusEvent::Stop
        && (forall|i: int| 1 <= i < events.len() - 1 ==> #[trigger] events[i] is Clock) {
        Some(group_bytes(Seq::new((events.len() - 2) as nat, |i: int| events[i + 1]->0)))
    } else {
        None
    }
}

/// Clock events for a run of bits.
pub open spec fn clocks(bits: Seq<bool>) -> Seq<BusEvent> {
    Seq::new(bits.len(), |i: int| BusEvent::Clock(bits[i]))
}

/// The bits clocked for a run of bytes: each byte's eight data bits and a
/// high acknowledge slot.
pub open spec fn frame_bits(bytes: Seq<u8>) -> Seq<bool>
    decreases bytes.len(),
{
    if bytes.len() == 0 {
        seq![]
    } else {
        lsb_bits(bytes[0] as nat, 8) + seq![true] + frame_bits(bytes.drop_first())
    }
}

pub open spec fn pow2(n: nat) -> nat
    decreases n,
{
    if n == 0 {
        1
    } else {
        2 * pow2((n - 1) as nat)
    }
}

/// The events of two runs of operations are the events of the first, then
/// those of the second from where the first left the lines.
pub proof fn lemma_events_append(a: Seq<BusOp>, b: Seq<BusOp>, clk: bool, dio: bool)
    ensures
        line_events(a + b, clk, dio) == line_events(a, clk, dio) + line_events(
            b,
            line_levels(a, clk, dio).0,
            line_levels(a, clk, dio).1,
        ),
        line_levels(a + b, clk, dio) == line_levels(
            b,
            line_levels(a, clk, dio).0,
            line_levels(a, clk, dio).1,
        ),
    decreases a.len(),
{
    if a.len() == 0 {
        assert(a + b =~= b);
        assert(line_events(a, clk, dio) =~= seq![]);
        assert(line_events(a + b, clk, dio) =~= line_events(a, clk, dio) + line_events(b, clk, dio));
    } else {
        let ab = a + b;
        assert(ab.drop_first() =~= a.drop_first() + b);
        assert(ab[0] == a[0]);
        let rest = a.drop_first();
        match a[0] {
            BusOp::ClkHigh => {
                lemma_events_append(rest, b, true, dio);
            },
            BusOp::ClkLow => {
                lemma_events_append(rest, b, false, dio);
            },
            BusOp::DioHigh => {
                lemma_events_append(rest, b, clk, true);
            },
            BusOp::DioLow => {
                lemma_events_append(rest, b, clk, false);
            },
            BusOp::Delay => {
                lemma_events_append(rest, b, clk, dio);
            },
        }
        let ea = line_events(a, clk, dio);
        let eab = line_events(ab, clk, dio);
        let (c1, d1) = line_levels(a, clk, dio);
        match a[0] {
            BusOp::ClkHigh => {
                let pre = if !clk { seq![BusEvent::Clock(dio)] } else { seq![] };
                assert(eab =~= pre + line_events(rest + b, true, dio));
                assert(eab =~= ea + line_events(b, c1, d1));
            },
            BusOp::DioHigh => {
                let pre = if clk && !dio { seq![BusEvent::Stop] } else { seq![] };
                assert(eab =~= pre + line_events(rest + b, clk, true));
                assert(eab =~= ea + line_events(b, c1, d1));
            },
            BusOp::DioLow => {
                let pre = if clk && dio { seq![BusEvent::Start] } else { seq![] };
                assert(eab =~= pre + line_events(rest + b, clk, false));
                assert(eab =~= ea + line_events(b, c1, d1));
            },
            _ => {},
        }
    }
}

proof fn lemma_bit(bit: bool, clk: bool, dio: bool)
    ensures
        line_events(bit_ops(bit), clk, dio) == seq![BusEvent::Clock(bit)],
        line_levels(bit_ops(bit), clk, dio) == (true, bit),
{
    reveal_with_fuel(line_events, 7);
    reveal_with_fuel(line_levels, 7);
    let s = bit_ops(bit);
    assert(s.drop_first() =~= seq![
        BusOp::Delay,
        if bit { BusOp::DioHigh } else { BusOp::DioLow },
        BusOp::Delay,
        BusOp::ClkHigh,
        BusOp::Delay,
    ]);
    assert(s.drop_first().drop_first() =~= seq![
        if bit { BusOp::DioHigh } else { BusOp::DioLow },
        BusOp::Delay,
        BusOp::ClkHigh,
        BusOp::Delay,
    ]);
    assert(s.drop_first().drop_first().drop_first() =~= seq![
        BusOp::Delay,
        BusOp::ClkHigh,
        BusOp::Delay,
    ]);
    assert(s.drop_first().drop_first().drop_first().drop_first() =~= seq![
        BusOp::ClkHigh,
        BusOp::Delay,
    ]);
    assert(s.drop_first().drop_first().drop_first().drop_first().drop_first() =~= seq![
        BusOp::Delay,
    ]);
    assert(s.drop_first().drop_first().drop_first().drop_first().drop_first().drop_first()
        =~= Seq::<BusOp>::empty());
    assert(line_events(bit_ops(bit), clk, dio) =~= seq![BusEvent::Clock(bit)]);
}

proof fn lemma_lsb_bits_len(b: nat, n: nat)
    ensures
        lsb_bits(b, n).len() == n,
    decreases n,
{
    if n > 0 {
        lemma_lsb_bits_len(b / 2, (n - 1) as nat);
    }
}

proof fn lemma_clocks_append(x: Seq<bool>, y: Seq<bool>)
    ensures
        clocks(x + y) == clocks(x) + clocks(y),
{
    assert(clocks(x + y) =~= clocks(x) + clocks(y));
}

proof fn lemma_data(b: nat, n: nat, clk: bool, dio: bool)
    ensures
        line_events(data_ops(b, n), clk, dio) == clocks(lsb_bits(b, n)),
        n > 0 ==> line_levels(data_ops(b, n), clk, dio).0,
        n == 0 ==> line_levels(data_ops(b, n), clk, dio) == (clk, dio),
    decreases n,
{
    if n == 0 {
        assert(line_events(data_ops(b, n), clk, dio) =~= clocks(lsb_bits(b, n)));
    } else {
        let bit = b % 2 == 1;
        let m = (n - 1) as nat;
        lemma_events_append(bit_ops(bit), data_ops(b / 2, m), clk, dio);
        lemma_bit(bit, clk, dio);
        lemma_data(b / 2, m, true, bit);
        lemma_clocks_append(seq![bit], lsb_bits(b / 2, m));
        assert(clocks(seq![bit]) =~= seq![BusEvent::Clock(bit)]);
    }
}

proof fn lemma_ack(clk: bool, dio: bool)
    ensures
        line_events(ack_ops(), clk, dio) == seq![BusEvent::Clock(true)],
        line_levels(ack_ops(), clk, dio) == (false, true),
{
    reveal_with_fuel(line_events, 7);
    reveal_with_fuel(line_levels, 7);
    let s = ack_ops();
    let s1 = s.drop_first();
    let s2 = s1.drop_first();
    let s3 = s2.drop_first();
    let s4 = s3.drop_first();
    let s5 = s4.drop_first();
    let s6 = s5.drop_first();
    assert(s1 =~= seq![BusOp::DioHigh, BusOp::Delay, BusOp::ClkHigh, BusOp::Delay, BusOp::ClkLow]);
    assert(s2 =~= seq![BusOp::Delay, BusOp::ClkHigh, BusOp::Delay, BusOp::ClkLow]);
    assert(s3 =~= seq![BusOp::ClkHigh, BusOp::Delay, BusOp::ClkLow]);
    assert(s4 =~= seq![BusOp::Delay, BusOp::ClkLow]);
    assert(s5 =~= seq![BusOp::ClkLow]);
    assert(s6 =~= Seq::<BusOp>::empty());
    assert(line_events(ack_ops(), clk, dio) =~= seq![BusEvent::Clock(true)]);
}

proof fn lemma_write_byte(b: u8, clk: bool, dio: bool)
    ensures
        line_events(write_byte_ops(b), clk, dio) == clocks(lsb_bits(b as nat, 8) + seq![true]),
        line_levels(write_byte_ops(b), clk, dio) == (false, true),
{
    let d = data_ops(b as nat, 8);
    lemma_events_append(d, ack_ops(), clk, dio);
    lemma_data(b as nat, 8, clk, dio);
    let (c1, d1) = line_levels(d, clk, dio);
    lemma_ack(c1, d1);
    lemma_clocks_append(lsb_bits(b as nat, 8), seq![true]);
    assert(clocks(seq![true]) =~= seq![BusEvent::Clock(true)]);
}

proof fn lemma_bytes(bytes: Seq<u8>, clk: bool, dio: bool)
    ensures
        line_events(bytes_ops(bytes), clk, dio) == clocks(frame_bits(bytes)),
        bytes.len() == 0 ==> line_levels(bytes_ops(bytes), clk, dio) == (clk, dio),
        bytes.len() > 0 ==> line_levels(bytes_ops(bytes), clk, dio) == (false, true),
    decreases bytes.len(),
{
    if bytes.len() == 0 {
        assert(line_events(bytes_ops(bytes), clk, dio) =~= clocks(frame_bits(bytes)));
    } else {
        let rest = bytes.drop_first();
        lemma_events_append(write_byte_ops(bytes[0]), bytes_ops(rest), clk, dio);
        lemma_write_byte(bytes[0], clk, dio);
        lemma_bytes(rest, false, true);
        lemma_clocks_append(lsb_bits(bytes[0] as nat, 8) + seq![true], frame_bits(rest));
    }
}

proof fn lemma_start()
    ensures
        line_events(start_ops(), true, true) == seq![BusEvent::Start],
        line_levels(start_ops(), true, true) == (true, false),
{
    reveal_with_fuel(line_events, 3);
    reveal_with_fuel(line_levels, 3);
    let s = start_ops();
    assert(s.drop_first() =~= seq![BusOp::Delay]);
    assert(s.drop_first().drop_first() =~= Seq::<BusOp>::empty());
    assert(line_events(start_ops(), true, true) =~= seq![BusEvent::Start]);
}

proof fn lemma_stop(clk: bool, dio: bool)
    requires
        (clk && !dio) || (!clk && dio),
    ensures
        clk ==> line_events(stop_ops(), clk, dio) == seq![BusEvent::Stop],
        !clk ==> line_events(stop_ops(), clk, dio) == seq![BusEvent::Clock(false), BusEvent::Stop],
        line_levels(stop_ops(), clk, dio) == (true, true),
{
    reveal_with_fuel(line_events, 7);
    reveal_with_fuel(line_levels, 7);
    let s = stop_ops();
    let s1 = s.drop_first();
    let s2 = s1.drop_first();
    let s3 = s2.drop_first();
    let s4 = s3.drop_first();
    let s5 = s4.drop_first();
    let s6 = s5.drop_first();
    assert(s1 =~= seq![BusOp::Delay, BusOp::ClkHigh, BusOp::Delay, BusOp::DioHigh, BusOp::Delay]);
    assert(s2 =~= seq![BusOp::ClkHigh, BusOp::Delay, BusOp::DioHigh, BusOp::Delay]);
    assert(s3 =~= seq![BusOp::Delay, BusOp::DioHigh, BusOp::Delay]);
    assert(s4 =~= seq![BusOp::DioHigh, BusOp::Delay]);
    assert(s5 =~= seq![BusOp::Delay]);
    assert(s6 =~= Seq::<BusOp>::empty());
    if clk {
        assert(line_events(stop_ops(), clk, dio) =~= seq![BusEvent::Stop]);
    } else {
        assert(line_events(stop_ops(), clk, dio) =~= seq![BusEvent::Clock(false), BusEvent::Stop]);
    }
}

proof fn lemma_bits_value(b: nat, n: nat)
    requires
        b < pow2(n),
    ensures
        bits_value(lsb_bits(b, n)) == b,
    decreases n,
{
    if n > 0 {
        let m = (n - 1) as nat;
        lemma_bits_value(b / 2, m);
        let bits = lsb_bits(b, n);
        assert(bits.drop_first() =~= lsb_bits(b / 2, m));
    }
}

proof fn lemma_group(bytes: Seq<u8>, tail: Seq<bool>)
    requires
        tail.len() < 9,
    ensures
        group_bytes(frame_bits(bytes) + tail) == bytes.map_values(|x: u8| x as nat),
    decreases bytes.len(),
{
    if bytes.len() == 0 {
        assert(frame_bits(bytes) + tail =~= tail);
        assert(bytes.map_values(|x: u8| x as nat) =~= Seq::<nat>::empty());
    } else {
        let rest = bytes.drop_first();
        let head = lsb_bits(bytes[0] as nat, 8);
        let all = frame_bits(bytes) + tail;
        lemma_lsb_bits_len(bytes[0] as nat, 8);
        lemma_group(rest, tail);
        assert(all.take(8) =~= head);
        assert(all.skip(9) =~= frame_bits(rest) + tail);
        assert(pow2(8) == 256) by {
            reveal_with_fuel(pow2, 9);
        }
        lemma_bits_value(bytes[0] as nat, 8);
        assert(bytes.map_values(|x: u8| x as nat) =~= seq![bytes[0] as nat] + rest.map_values(
            |x: u8| x as nat,
        ));
    }
}

/// Read-back of a command: starting from an idle bus (both lines high), the
/// waveform of a command leaves the bus idle again, and a receiver that
/// watches the lines reads back exactly the bytes that were written, in
/// order.
pub proof fn lemma_command_read_back(bytes: Seq<u8>)
    ensures
        line_levels(command_ops(bytes), true, true) == (true, true),
        received_command(line_events(command_ops(bytes), true, true)) == Some(
            bytes.map_values(|x: u8| x as nat),
        ),
{
    let so = start_ops();
    let bo = bytes_ops(bytes);
    let st = stop_ops();
    assert(command_ops(bytes) == (so + bo) + st);
    lemma_events_append(so + bo, st, true, true);
    lemma_events_append(so, bo, true, true);
    lemma_start();
    lemma_bytes(bytes, true, false);
    let (c2, d2) = line_levels(so + bo, true, true);
    lemma_stop(c2, d2);
    let ev = line_events(command_ops(bytes), true, true);
    let fb = frame_bits(bytes);
    let tail: Seq<bool> = if bytes.len() == 0 { seq![] } else { seq![false] };
    lemma_clocks_append(fb, tail);
    assert(clocks(tail) =~= (if bytes.len() == 0 { Seq::<BusEvent>::empty() } else { seq![BusEvent::Clock(false)] }));
    assert(ev =~= seq![BusEvent::Start] + clocks(fb + tail) + seq![BusEvent::Stop]);
    let mid = Seq::new((ev.len() - 2) as nat, |i: int| ev[i + 1]->0);
    assert(mid =~= fb + tail);
    assert forall|i: int| 1 <= i < ev.len() - 1 implies #[trigger] ev[i] is Clock by {
        assert(ev[i] == clocks(fb + tail)[i - 1]);
    }
    lemma_group(bytes, tail);
}

/// Whether every change of DIO in `ops`, run from levels `clk` and `dio`,
/// happens while CLK is low (so that `ops` can make no start or stop
/// condition).
pub open spec fn dio_moves_with_clk_low(ops: Seq<BusOp>, clk: bool, dio: bool) -> bool
    decreases ops.len(),
{
    if ops.len() == 0 {
        true
    } else {
        let rest = ops.drop_first();
        match ops[0] {
            BusOp::ClkHigh => dio_moves_with_clk_low(rest, true, dio),
            BusOp::ClkLow => dio_moves_with_clk_low(rest, false, dio),
            BusOp::DioHigh => !clk && dio_moves_with_clk_low(rest, clk, true),
            BusOp::DioLow => !clk && dio_moves_with_clk_low(rest, clk, false),
            BusOp::Delay => dio_moves_with_clk_low(rest, clk, dio),
        }
    }
}

proof fn lemma_clk_low_append(a: Seq<BusOp>, b: Seq<BusOp>, clk: bool, dio: bool)
    ensures
        dio_moves_with_clk_low(a + b, clk, dio) == (dio_moves_with_clk_low(a, clk, dio)
            && dio_moves_with_clk_low(b, line_levels(a, clk, dio).0, line_levels(a, clk, dio).1)),
    decreases a.len(),
{
    if a.len() == 0 {
        assert(a + b =~= b);
    } else {
        let ab = a + b;
        assert(ab.drop_first() =~= a.drop_first() + b);
        assert(ab[0] == a[0]);
        let rest = a.drop_first();
        match a[0] {
            BusOp::ClkHigh => lemma_clk_low_append(rest, b, true, dio),
            BusOp::ClkLow => lemma_clk_low_append(rest, b, false, dio),
            BusOp::DioHigh => lemma_clk_low_append(rest, b, clk, true),
            BusOp::DioLow => lemma_clk_low_append(rest, b, clk, false),
            BusOp::Delay => lemma_clk_low_append(rest, b, clk, dio),
        }
    }
}

proof fn lemma_bit_clk_low(bit: bool, clk: bool, dio: bool)
    ensures
        dio_moves_with_clk_low(bit_ops(bit), clk, dio),
{
    reveal_with_fuel(dio_moves_with_clk_low, 7);
    let s = bit_ops(bit);
    let s1 = s.drop_first();
    let s2 = s1.drop_first();
    let s3 = s2.drop_first();
    let s4 = s3.drop_first();
    let s5 = s4.drop_first();
    assert(s1 =~= seq![
        BusOp::Delay,
        if bit { BusOp::DioHigh } else { BusOp::DioLow },
        BusOp::Delay,
        BusOp::ClkHigh,
        BusOp::Delay,
    ]);
    assert(s2 =~= seq![
        if bit { BusOp::DioHigh } else { BusOp::DioLow },
        BusOp::Delay,
        BusOp::ClkHigh,
        BusOp::Delay,
    ]);
    assert(s3 =~= seq![BusOp::Delay, BusOp::ClkHigh, BusOp::Delay]);
    assert(s4 =~= seq![BusOp::ClkHigh, BusOp::Delay]);
    assert(s5 =~= seq![BusOp::Delay]);
    assert(s5.drop_first() =~= Seq::<BusOp>::empty());
}

proof fn lemma_data_clk_low(b: nat, n: nat, clk: bool, dio: bool)
    ensures
        dio_moves_with_clk_low(data_ops(b, n), clk, dio),
    decreases n,
{
    if n > 0 {
        let bit = b % 2 == 1;
        let m = (n - 1) as nat;
        lemma_clk_low_append(bit_ops(bit), data_ops(b / 2, m), clk, dio);
        lemma_bit_clk_low(bit, clk, dio);
        lemma_bit(bit, clk, dio);
        lemma_data_clk_low(b / 2, m, true, bit);
    }
}

proof fn lemma_ack_clk_low(clk: bool, dio: bool)
    ensures
        dio_moves_with_clk_low(ack_ops(), clk, dio),
{
    reveal_with_fuel(dio_moves_with_clk_low, 7);
    let s = ack_ops();
    let s1 = s.drop_first();
    let s2 = s1.drop_first();
    let s3 = s2.drop_first();
    let s4 = s3.drop_first();
    let s5 = s4.drop_first();
    assert(s1 =~= seq![BusOp::DioHigh, BusOp::Delay, BusOp::ClkHigh, BusOp::Delay, BusOp::ClkLow]);
    assert(s2 =~= seq![BusOp::Delay, BusOp::ClkHigh, BusOp::Delay, BusOp::ClkLow]);
    assert(s3 =~= seq![BusOp::ClkHigh, BusOp::Delay, BusOp::ClkLow]);
    assert(s4 =~= seq![BusOp::Delay, BusOp::ClkLow]);
    assert(s5 =~= seq![BusOp::ClkLow]);
    assert(s5.drop_first() =~= Seq::<BusOp>::empty());
}

/// The framing of a byte: from any line levels, every change of DIO inside
/// the byte happens while CLK is low, so a byte makes no start or stop
/// condition; CLK rises exactly nine times, sampling the eight bits of the
/// byte, least significant first, then the acknowledge slot; and the byte
/// ends with CLK low and DIO released high.
pub proof fn lemma_byte_framing(b: u8, clk: bool, dio: bool)
    ensures
        dio_moves_with_clk_low(write_byte_ops(b), clk, dio),
        line_events(write_byte_ops(b), clk, dio) == clocks(lsb_bits(b as nat, 8) + seq![true]),
        (lsb_bits(b as nat, 8) + seq![true]).len() == 9,
        bits_value(lsb_bits(b as nat, 8)) == b,
        line_levels(write_byte_ops(b), clk, dio) == (false, true),
{
    let d = data_ops(b as nat, 8);
    lemma_clk_low_append(d, ack_ops(), clk, dio);
    lemma_data_clk_low(b as nat, 8, clk, dio);
    let (c1, d1) = line_levels(d, clk, dio);
    lemma_ack_clk_low(c1, d1);
    lemma_write_byte(b, clk, dio);
    lemma_lsb_bits_len(b as nat, 8);
    assert(pow2(8) == 256) by {
        reveal_with_fuel(pow2, 9);
    }
    lemma_bits_value(b as nat, 8);
}

} // verus!
