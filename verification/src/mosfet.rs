//! MOSFET states, the switching sequences, and the pin levels that put a
//! state on the pins.

use vstd::prelude::*;

verus! {

/// Which of the four MOSFETs conduct: `true` means ON.
#[derive(Clone, Copy, Debug, PartialEq, Eq, Structural)]
pub struct MosfetState {
    pub p1: bool,
    pub p2: bool,
    pub n1: bool,
    pub n2: bool,
}

impl MosfetState {
    pub fn new(p1: bool, p2: bool, n1: bool, n2: bool) -> (s: Self)
        ensures
            s == (MosfetState { p1, p2, n1, n2 }),
    {
        Self { p1, p2, n1, n2 }
    }
}

/// Number of entries of the state table.
pub const STATE_COUNT: usize = 6;

/// Index of the state that turns every MOSFET off.
pub const ALL_OFF_STATE: usize = 5;

/// Number of switching sequences.
pub const SEQUENCE_COUNT: usize = 8;

/// The state table: 0 P1-N1, 1 P1-N2, 2 P2-N1, 3 P2-N2, 4 all on, 5 all off.
pub open spec fn spec_state_definition(i: int) -> MosfetState {
    if i == 0 {
        MosfetState { p1: true, p2: false, n1: true, n2: false }
    } else if i == 1 {
        MosfetState { p1: true, p2: false, n1: false, n2: true }
    } else if i == 2 {
        MosfetState { p1: false, p2: true, n1: true, n2: false }
    } else if i == 3 {
        MosfetState { p1: false, p2: true, n1: false, n2: true }
    } else if i == 4 {
        MosfetState { p1: true, p2: true, n1: true, n2: true }
    } else {
        MosfetState { p1: false, p2: false, n1: false, n2: false }
    }
}

/// Entry `i` of the state table.
pub fn state_definition(i: usize) -> (s: MosfetState)
    requires
        i < STATE_COUNT,
    ensures
        s == spec_state_definition(i as int),
{
    match i {
        0 => MosfetState::new(true, false, true, false),
        1 => MosfetState::new(true, false, false, true),
        2 => MosfetState::new(false, true, true, false),
        3 => MosfetState::new(false, true, false, true),
        4 => MosfetState::new(true, true, true, true),
        _ => MosfetState::new(false, false, false, false),
    }
}

/// The switching sequences, as indices into the state table: 0 all off,
/// 1 the standard rotation, 2 to 6 its alternates, 7 all on. Sequence
/// number `n` (from 1 to 8) is entry `n - 1`.
pub open spec fn spec_sequence(i: int) -> Seq<usize> {
    if i == 0 {
        seq![5usize, 5, 5, 5]
    } else if i == 1 {
        seq![0usize, 1, 2, 3]
    } else if i == 2 {
        seq![0usize, 1, 3, 2]
    } else if i == 3 {
        seq![0usize, 2, 1, 3]
    } else if i == 4 {
        seq![0usize, 2, 3, 1]
    } else if i == 5 {
        seq![0usize, 3, 1, 2]
    } else if i == 6 {
        seq![0usize, 3, 2, 1]
    } else {
        seq![4usize, 4, 4, 4]
    }
}

/// Entry `i` of the sequence table.
pub fn sequence(i: usize) -> (s: [usize; 4])
    requires
        i < SEQUENCE_COUNT,
    ensures
        s@ == spec_sequence(i as int),
{
    let s: [usize; 4] = match i {
        0 => [5, 5, 5, 5],
        1 => [0, 1, 2, 3],
        2 => [0, 1, 3, 2],
        3 => [0, 2, 1, 3],
        4 => [0, 2, 3, 1],
        5 => [0, 3, 1, 2],
        6 => [0, 3, 2, 1],
        _ => [4, 4, 4, 4],
    };
    assert(s@ =~= spec_sequence(i as int));
    s
}

/// The pin levels that drive the four MOSFETs: `true` is a high pin.
#[derive(Clone, Copy, Debug, PartialEq, Eq, Structural)]
pub struct PinLevels {
    pub p1_high: bool,
    pub p2_high: bool,
    pub n1_high: bool,
    pub n2_high: bool,
}

/// The pin levels for a state. P-channel MOSFETs are active-low (ON is a
/// low pin), N-channel MOSFETs active-high (ON is a high pin).
pub open spec fn spec_pin_levels(state: MosfetState) -> PinLevels {
    PinLevels { p1_high: !state.p1, p2_high: !state.p2, n1_high: state.n1, n2_high: state.n2 }
}

/// The levels to write to the P1, P2, N1 and N2 pins to apply `state`.
pub fn apply_state(state: MosfetState) -> (levels: PinLevels)
    ensures
        levels == spec_pin_levels(state),
        levels.p1_high == !state.p1,
        levels.p2_high == !state.p2,
        levels.n1_high == state.n1,
        levels.n2_high == state.n2,
{
    PinLevels {
        p1_high: if state.p1 { false } else { true },
        p2_high: if state.p2 { false } else { true },
        n1_high: if state.n1 { true } else { false },
        n2_high: if state.n2 { true } else { false },
    }
}

/// The levels that switch every MOSFET off.
pub fn all_off() -> (levels: PinLevels)
    ensures
        levels == spec_pin_levels(spec_state_definition(ALL_OFF_STATE as int)),
        levels == (PinLevels { p1_high: true, p2_high: true, n1_high: false, n2_high: false }),
{
    apply_state(state_definition(ALL_OFF_STATE))
}

/// Every entry of every switching sequence names a state of the table,
/// and every sequence is four steps long.
pub proof fn lemma_sequences_index_states(i: int, k: int)
    requires
        0 <= i < SEQUENCE_COUNT,
        0 <= k < 4,
    ensures
        spec_sequence(i).len() == 4,
        spec_sequence(i)[k] < STATE_COUNT,
{
}

/// The rotation sequences (1 to 6) start from state 0 and visit each of the
/// four paired states 0, 1, 2, 3 exactly once per cycle.
pub proof fn lemma_rotations_are_permutations(i: int)
    requires
        1 <= i <= 6,
    ensures
        spec_sequence(i)[0] == 0,
        forall|s: usize| s < 4 ==> #[trigger] spec_sequence(i).contains(s),
        forall|a: int, b: int|
            0 <= a < b < 4 ==> spec_sequence(i)[a] != spec_sequence(i)[b],
{
    let q = spec_sequence(i);
    assert forall|s: usize| s < 4 implies #[trigger] q.contains(s) by {
        if q[0] == s {
            assert(q.contains(s));
        } else if q[1] == s {
            assert(q.contains(s));
        } else if q[2] == s {
            assert(q.contains(s));
        } else {
            assert(q[3] == s);
            assert(q.contains(s));
        }
    }
}

/// Each of the paired states 0 to 3 turns on exactly one high-side
/// (P) and exactly one low-side (N) MOSFET; state 4 turns all four on and
/// state 5 all four off.
pub proof fn lemma_state_table(i: int)
    requires
        0 <= i < STATE_COUNT,
    ensures
        i < 4 ==> (spec_state_definition(i).p1 != spec_state_definition(i).p2
            && spec_state_definition(i).n1 != spec_state_definition(i).n2),
        i == 4 ==> spec_state_definition(i) == (MosfetState { p1: true, p2: true, n1: true, n2: true }),
        i == ALL_OFF_STATE ==> spec_state_definition(i) == (MosfetState {
            p1: false,
            p2: false,
            n1: false,
            n2: false,
        }),
{
}

/// Each pin follows its own MOSFET and no other: a P-channel MOSFET is on
/// exactly when its pin is low, an N-channel MOSFET exactly when its pin is
/// high. So every table state conducts through exactly the MOSFETs it names,
/// and the all-off state drives P pins high and N pins low.
pub proof fn lemma_pins_follow_state(state: MosfetState, i: int)
    requires
        0 <= i < STATE_COUNT,
    ensures
        spec_pin_levels(state).p1_high == !state.p1,
        spec_pin_levels(state).p2_high == !state.p2,
        spec_pin_levels(state).n1_high == state.n1,
        spec_pin_levels(state).n2_high == state.n2,
        !spec_pin_levels(spec_state_definition(i)).p1_high == spec_state_definition(i).p1,
        !spec_pin_levels(spec_state_definition(i)).p2_high == spec_state_definition(i).p2,
        spec_pin_levels(spec_state_definition(i)).n1_high == spec_state_definition(i).n1,
        spec_pin_levels(spec_state_definition(i)).n2_high == spec_state_definition(i).n2,
        i == 1 ==> spec_pin_levels(spec_state_definition(i)) == (PinLevels {
            p1_high: false,
            p2_high: true,
            n1_high: false,
            n2_high: true,
        }),
        i == 3 ==> spec_pin_levels(spec_state_definition(i)) == (PinLevels {
            p1_high: true,
            p2_high: false,
            n1_high: false,
            n2_high: true,
        }),
        i == ALL_OFF_STATE ==> spec_pin_levels(spec_state_definition(i)) == (PinLevels {
            p1_high: true,
            p2_high: true,
            n1_high: false,
            n2_high: false,
        }),
{
}

} // verus!
