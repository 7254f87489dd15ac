//! Stepper motor driver state for the 28BYJ-48 with a ULN2003 board:
//! full-step and half-step coil sequences, step phase, gear reduction and
//! step delay.

use vstd::prelude::*;

verus! {

/// Motor rotation direction
#[derive(Debug, Clone, Copy, PartialEq, Eq, Structural)]
pub enum Direction {
    Clockwise,
    CounterClockwise,
}

/// Stepping mode
#[derive(Debug, Clone, Copy, PartialEq, Eq, Structural)]
pub enum StepMode {
    /// 4-step sequence, 2048 steps per revolution
    Full,
    /// 8-step sequence, 4096 steps per revolution (smoother)
    Half,
}

impl StepMode {
    /// Motor steps in one revolution of the motor shaft.
    pub open spec fn spec_steps_per_motor_revolution(self) -> u32 {
        match self {
            StepMode::Full => 2048,
            StepMode::Half => 4096,
        }
    }

    #[verifier::when_used_as_spec(spec_steps_per_motor_revolution)]
    pub fn steps_per_motor_revolution(self) -> (steps: u32)
        ensures
            steps == self.spec_steps_per_motor_revolution(),
    {
        match self {
            StepMode::Full => 2048,
            StepMode::Half => 4096,
        }
    }
}


impl StepMode {
    /// Number of entries in the coil sequence of this mode.
    pub open spec fn sequence_len(self) -> nat {
        match self {
            StepMode::Full => 4,
            StepMode::Half => 8,
        }
    }

    /// The coil sequence of this mode: entry `i` gives the levels of
    /// IN1..IN4 at phase `i`.
    pub open spec fn sequence(self) -> Seq<Seq<bool>> {
        match self {
            StepMode::Full => seq![
                seq![true, true, false, false],
                seq![false, true, true, false],
                seq![false, false, true, true],
                seq![true, false, false, true],
            ],
            StepMode::Half => seq![
                seq![true, false, false, false],
                seq![true, true, false, false],
                seq![false, true, false, false],
                seq![false, true, true, false],
                seq![false, false, true, false],
                seq![false, false, true, true],
                seq![false, false, false, true],
                seq![true, false, false, true],
            ],
        }
    }

    fn sequence_length(self) -> (len: usize)
        ensures
            len == self.sequence_len(),
    {
        match self {
            StepMode::Full => 4,
            StepMode::Half => 8,
        }
    }

    /// Coil levels of this mode's sequence at `phase`.
    fn pattern(self, phase: usize) -> (coils: [bool; 4])
        requires
            phase < self.sequence_len(),
        ensures
            coils@ == self.sequence()[phase as int],
    {
        let coils = match self {
            StepMode::Full => {
                if phase == 0 {
                    [true, true, false, false]
                } else if phase == 1 {
                    [false, true, true, false]
                } else if phase == 2 {
                    [false, false, true, true]
                } else {
                    [true, false, false, true]
                }
            },
            StepMode::Half => {
                if phase == 0 {
                    [true, false, false, false]
                } else if phase == 1 {
                    [true, true, false, false]
                } else if phase == 2 {
                    [false, true, false, false]
                } else if phase == 3 {
                    [false, true, true, false]
                } else if phase == 4 {
                    [false, false, true, false]
                } else if phase == 5 {
                    [false, false, true, true]
                } else if phase == 6 {
                    [false, false, false, true]
                } else {
                    [true, false, false, true]
                }
            },
        };
        assert(coils@ =~= self.sequence()[phase as int]);
        coils
    }
}


/// Phase reached from `phase` by one step in `direction`, in a sequence of
/// `mode`: clockwise advances by one and wraps to 0, counter-clockwise goes
/// back by one and wraps from 0 to the last entry.
pub open spec fn next_phase(mode: StepMode, phase: int, direction: Direction) -> int {
    let len = mode.sequence_len() as int;
    match direction {
        Direction::Clockwise => (phase + 1) % len,
        Direction::CounterClockwise => if phase == 0 {
            len - 1
        } else {
            phase - 1
        },
    }
}

/// The opposite direction.
pub open spec fn reverse(direction: Direction) -> Direction {
    match direction {
        Direction::Clockwise => Direction::CounterClockwise,
        Direction::CounterClockwise => Direction::Clockwise,
    }
}

/// The abstract state of a [`Stepper`].
pub struct StepperState {
    pub mode: StepMode,
    /// Index of the current entry in the coil sequence.
    pub phase: usize,
    /// Delay after each step, in microseconds.
    pub step_delay_us: u64,
    /// Reduction between motor and output shaft (output turns this many times slower).
    pub gear_reduction: u32,
    /// Levels driven on IN1..IN4.
    pub coils: Seq<bool>,
}

impl StepperState {
    /// What every stepper keeps: a reduction of at least 1, a phase inside
    /// the longer (half-step) sequence, and four coil levels.
    pub open spec fn valid(self) -> bool {
        &&& self.gear_reduction >= 1
        &&& self.phase < 8
        &&& self.coils.len() == 4
    }

    /// A step in `direction` stays inside the sequence of the current mode.
    /// It does not only when a switch from half to full step kept a phase
    /// past the end of the four-entry sequence and the step goes
    /// counter-clockwise: the entry before that phase does not exist.
    pub open spec fn can_step(self, direction: Direction) -> bool {
        direction == Direction::Clockwise || self.phase <= self.mode.sequence_len()
    }

    /// The state after one step in `direction`.
    pub open spec fn stepped(self, direction: Direction) -> StepperState {
        let next = next_phase(self.mode, self.phase as int, direction);
        StepperState { phase: next as usize, coils: self.mode.sequence()[next], ..self }
    }

    /// The state after `count` steps in `direction`.
    pub open spec fn stepped_n(self, count: nat, direction: Direction) -> StepperState
        decreases count,
    {
        if count == 0 {
            self
        } else {
            self.stepped_n((count - 1) as nat, direction).stepped(direction)
        }
    }

    /// Steps of the output shaft in one output revolution.
    pub open spec fn output_steps_per_revolution(self) -> int {
        self.mode.spec_steps_per_motor_revolution() * self.gear_reduction
    }
}

/// The four coils released.
pub open spec fn all_off() -> Seq<bool> {
    seq![false, false, false, false]
}

/// Driver state of a 28BYJ-48 stepper behind a ULN2003 board. The levels of
/// IN1..IN4 are held here; the board's pins are driven from them.
pub struct Stepper {
    step_mode: StepMode,
    current_step: usize,
    step_delay_us: u64,
    gear_reduction: u32,
    coils: [bool; 4],
}

impl View for Stepper {
    type V = StepperState;

    closed spec fn view(&self) -> StepperState {
        StepperState {
            mode: self.step_mode,
            phase: self.current_step,
            step_delay_us: self.step_delay_us,
            gear_reduction: self.gear_reduction,
            coils: self.coils@,
        }
    }
}

impl Stepper {
    /// A stepper in half-step mode at phase 0, with no gear reduction, no
    /// step delay yet and all coils released.
    pub fn new() -> (stepper: Self)
        ensures
            stepper@.valid(),
            stepper@.mode == StepMode::Half,
            stepper@.phase == 0,
            stepper@.step_delay_us == 0,
            stepper@.gear_reduction == 1,
            stepper@.coils == all_off(),
    {
        let stepper = Stepper {
            step_mode: StepMode::Half,
            current_step: 0,
            step_delay_us: 0,
            gear_reduction: 1,
            coils: [false, false, false, false],
        };
        assert(stepper.coils@ =~= all_off());
        stepper
    }

    /// Set gear reduction ratio (e.g., 3 means 3:1 reduction, turntable
    /// rotates 3x slower than motor). A ratio of 0 is taken as 1.
    pub fn set_gear_reduction(&mut self, reduction: u32)
        requires
            old(self)@.valid(),
        ensures
            final(self)@ == (StepperState {
                gear_reduction: if reduction == 0 { 1 } else { reduction },
                ..old(self)@
            }),
            final(self)@.valid(),
    {
        self.gear_reduction = reduction.max(1);
    }

    /// Steps of the output shaft in one revolution: motor steps per motor
    /// revolution times the gear reduction.
    pub fn steps_per_output_revolution(&self) -> (steps: u32)
        requires
            self@.output_steps_per_revolution() <= u32::MAX,
        ensures
            steps == self@.output_steps_per_revolution(),
    {
        self.step_mode.steps_per_motor_revolution() * self.gear_reduction
    }

    /// Switch the stepping mode. The phase and the coil levels are kept as
    /// they are.
    pub fn set_mode(&mut self, mode: StepMode)
        requires
            old(self)@.valid(),
        ensures
            final(self)@ == (StepperState { mode, ..old(self)@ }),
            final(self)@.valid(),
    {
        self.step_mode = mode;
    }

    /// Whether a step in `direction` stays inside the current sequence.
    pub fn can_step(&self, direction: Direction) -> (ok: bool)
        requires
            self@.valid(),
        ensures
            ok == self@.can_step(direction),
    {
        match direction {
            Direction::Clockwise => true,
            Direction::CounterClockwise => self.current_step <= self.step_mode.sequence_length(),
        }
    }

    pub fn mode(&self) -> (mode: StepMode)
        ensures
            mode == self@.mode,
    {
        self.step_mode
    }

    pub fn gear_reduction(&self) -> (reduction: u32)
        ensures
            reduction == self@.gear_reduction,
    {
        self.gear_reduction
    }

    pub fn step_delay_us(&self) -> (delay_us: u64)
        ensures
            delay_us == self@.step_delay_us,
    {
        self.step_delay_us
    }

    pub fn current_step(&self) -> (phase: usize)
        ensures
            phase == self@.phase,
    {
        self.current_step
    }

    /// Levels driven on IN1..IN4.
    pub fn coils(&self) -> (coils: [bool; 4])
        ensures
            coils@ == self@.coils,
    {
        self.coils
    }

    /// Set the delay after each step, at least 1000 microseconds.
    pub fn set_step_delay_us(&mut self, delay_us: u64)
        requires
            old(self)@.valid(),
        ensures
            final(self)@ == (StepperState {
                step_delay_us: if delay_us < 1000 { 1000 } else { delay_us },
                ..old(self)@
            }),
            final(self)@.valid(),
    {
        self.step_delay_us = delay_us.max(1000);
    }

    /// Store the step delay that a speed setting computed for the output
    /// shaft, as it is.
    pub fn store_step_delay_us(&mut self, delay_us: u64)
        requires
            old(self)@.valid(),
        ensures
            final(self)@ == (StepperState { step_delay_us: delay_us, ..old(self)@ }),
            final(self)@.valid(),
    {
        self.step_delay_us = delay_us;
    }

    /// Advance one step in `direction`: move to the next phase of the
    /// sequence and drive its coil levels.
    pub fn step(&mut self, direction: Direction)
        requires
            old(self)@.valid(),
            old(self)@.can_step(direction),
        ensures
            final(self)@ == old(self)@.stepped(direction),
            final(self)@.valid(),
            final(self)@.phase < final(self)@.mode.sequence_len(),
    {
        let sequence_len = self.step_mode.sequence_length();
        self.current_step = match direction {
            Direction::Clockwise => (self.current_step + 1) % sequence_len,
            Direction::CounterClockwise => {
                if self.current_step == 0 {
                    sequence_len - 1
                } else {
                    self.current_step - 1
                }
            },
        };
        self.coils = self.step_mode.pattern(self.current_step);
    }

    /// Release all coils.
    pub fn stop(&mut self)
        requires
            old(self)@.valid(),
        ensures
            final(self)@ == (StepperState { coils: all_off(), ..old(self)@ }),
            final(self)@.valid(),
    {
        self.coils = [false, false, false, false];
        assert(self.coils@ =~= all_off());
    }
}


/// A step followed by a step the other way comes back to the phase it
/// started from, whenever that phase lies inside the current sequence.
pub proof fn lemma_reverse_step_restores_phase(s: StepperState, direction: Direction)
    requires
        s.valid(),
        s.phase < s.mode.sequence_len(),
    ensures
        s.can_step(direction),
        s.stepped(direction).can_step(reverse(direction)),
        s.stepped(direction).stepped(reverse(direction)).phase == s.phase,
        s.stepped(direction).stepped(reverse(direction)).coils == s.mode.sequence()[s.phase as int],
{
}

/// After `count` steps clockwise the phase has advanced by `count` modulo
/// the sequence length; counter-clockwise it has gone back by `count`.
pub proof fn lemma_stepped_n_phase(s: StepperState, count: nat, direction: Direction)
    requires
        s.valid(),
        s.phase < s.mode.sequence_len(),
    ensures
        s.stepped_n(count, direction).valid(),
        s.stepped_n(count, direction).mode == s.mode,
        s.stepped_n(count, direction).gear_reduction == s.gear_reduction,
        s.stepped_n(count, direction).step_delay_us == s.step_delay_us,
        direction == Direction::Clockwise ==> s.stepped_n(count, direction).phase == (s.phase + count)
            % (s.mode.sequence_len() as int),
        direction == Direction::CounterClockwise ==> s.stepped_n(count, direction).phase == (
        s.phase - count) % (s.mode.sequence_len() as int),
    decreases count,
{
    let len = s.mode.sequence_len() as int;
    if count > 0 {
        lemma_stepped_n_phase(s, (count - 1) as nat, direction);
        let prev = s.stepped_n((count - 1) as nat, direction);
        if direction == Direction::Clockwise {
            assert((prev.phase + 1) % len == (s.phase + count) % len) by {
                vstd::arithmetic::div_mod::lemma_add_mod_noop(s.phase + count - 1, 1, len);
                vstd::arithmetic::div_mod::lemma_small_mod(1, len as nat);
                vstd::arithmetic::div_mod::lemma_mod_twice(s.phase + count - 1, len);
            }
        } else {
            assert(next_phase(s.mode, prev.phase as int, direction) == (s.phase - count) % len) by {
                vstd::arithmetic::div_mod::lemma_sub_mod_noop(s.phase - count + 1, 1, len);
                vstd::arithmetic::div_mod::lemma_small_mod(1, len as nat);
                vstd::arithmetic::div_mod::lemma_mod_twice(s.phase - count + 1, len);
                vstd::arithmetic::div_mod::lemma_mod_bound(s.phase - count, len);
            }
        }
    }
}

/// A whole sequence of steps in one direction brings the motor back to the
/// phase, and so to the coil levels, it started from.
pub proof fn lemma_full_sequence_returns(s: StepperState, direction: Direction)
    requires
        s.valid(),
        s.phase < s.mode.sequence_len(),
    ensures
        s.stepped_n(s.mode.sequence_len(), direction).phase == s.phase,
{
    let len = s.mode.sequence_len() as int;
    lemma_stepped_n_phase(s, s.mode.sequence_len(), direction);
    vstd::arithmetic::div_mod::lemma_mod_add_multiples_vanish(s.phase as int, len);
    vstd::arithmetic::div_mod::lemma_mod_sub_multiples_vanish(s.phase as int, len);
    vstd::arithmetic::div_mod::lemma_small_mod(s.phase as nat, len as nat);
}

proof fn lemma_mod_offset_cancels(p: int, x: int, c: int, len: int)
    requires
        0 <= p < len,
        x - c == p || x + c == p,
    ensures
        x - c == p ==> ((x % len) - c) % len == p,
        x + c == p ==> ((x % len) + c) % len == p,
{
    let q = x / len;
    let a = x % len;
    vstd::arithmetic::div_mod::lemma_fundamental_div_mod(x, len);
    vstd::arithmetic::div_mod::lemma_small_mod(p as nat, len as nat);
    if x - c == p {
        assert(a - c == len * (-q) + p) by (nonlinear_arith)
            requires
                x == len * q + a,
                x - c == p,
        ;
        vstd::arithmetic::div_mod::lemma_mod_multiples_vanish(-q, p, len);
    }
    if x + c == p {
        assert(a + c == len * (-q) + p) by (nonlinear_arith)
            requires
                x == len * q + a,
                x + c == p,
        ;
        vstd::arithmetic::div_mod::lemma_mod_multiples_vanish(-q, p, len);
    }
}

/// Any number of steps one way followed by as many steps the other way
/// comes back to the phase it started from.
pub proof fn lemma_steps_there_and_back(s: StepperState, count: nat, direction: Direction)
    requires
        s.valid(),
        s.phase < s.mode.sequence_len(),
    ensures
        s.stepped_n(count, direction).stepped_n(count, reverse(direction)).phase == s.phase,
{
    let len = s.mode.sequence_len() as int;
    let p = s.phase as int;
    let there = s.stepped_n(count, direction);
    lemma_stepped_n_phase(s, count, direction);
    if direction == Direction::Clockwise {
        vstd::arithmetic::div_mod::lemma_mod_bound(p + count, len);
        lemma_stepped_n_phase(there, count, reverse(direction));
        lemma_mod_offset_cancels(p, p + count, count as int, len);
    } else {
        vstd::arithmetic::div_mod::lemma_mod_bound(p - count, len);
        lemma_stepped_n_phase(there, count, reverse(direction));
        lemma_mod_offset_cancels(p, p - count, count as int, len);
    }
}

/// Steps compose: `a` steps and then `b` more in the same direction are
/// `a + b` steps.
pub proof fn lemma_stepped_n_compose(s: StepperState, a: nat, b: nat, direction: Direction)
    ensures
        s.stepped_n(a, direction).stepped_n(b, direction) == s.stepped_n(a + b, direction),
    decreases b,
{
    if b > 0 {
        lemma_stepped_n_compose(s, a, (b - 1) as nat, direction);
        assert((a + b - 1) as nat == a + (b - 1) as nat);
    }
}

/// One revolution of the output shaft, in either direction, brings the
/// motor back to the phase it started from and drives that phase's coil
/// levels: the revolution's step count is a multiple of the sequence
/// length.
pub proof fn lemma_revolution_returns(s: StepperState, direction: Direction)
    requires
        s.valid(),
        s.phase < s.mode.sequence_len(),
    ensures
        s.stepped_n(s.output_steps_per_revolution() as nat, direction).phase == s.phase,
        s.stepped_n(s.output_steps_per_revolution() as nat, direction).coils
            == s.mode.sequence()[s.phase as int],
{
    let len = s.mode.sequence_len() as int;
    let gear = s.gear_reduction as int;
    let count = s.output_steps_per_revolution();
    let k = 512 * gear;
    assert(count == len * k) by (nonlinear_arith)
        requires
            count == s.mode.spec_steps_per_motor_revolution() * gear,
            s.mode.spec_steps_per_motor_revolution() == 512 * len,
            k == 512 * gear,
    ;
    assert(count >= 1) by (nonlinear_arith)
        requires
            count == len * k,
            len >= 4,
            k >= 512,
    ;
    let p = s.phase as int;
    lemma_stepped_n_phase(s, count as nat, direction);
    vstd::arithmetic::div_mod::lemma_small_mod(p as nat, len as nat);
    vstd::arithmetic::div_mod::lemma_mod_multiples_vanish(k, p, len);
    vstd::arithmetic::div_mod::lemma_mod_multiples_vanish(-k, p, len);
    assert(p + count == len * k + p);
    assert(p - count == len * (-k) + p) by (nonlinear_arith)
        requires
            count == len * k,
    ;
    let before = s.stepped_n((count - 1) as nat, direction);
    lemma_stepped_n_phase(s, (count - 1) as nat, direction);
    assert(s.stepped_n(count as nat, direction) == before.stepped(direction));
}

/// Number of coils whose level differs between `a` and `b`.
pub open spec fn coils_changed(a: Seq<bool>, b: Seq<bool>) -> nat
    decreases a.len(),
{
    if a.len() == 0 || b.len() == 0 {
        0
    } else {
        coils_changed(a.drop_last(), b.drop_last()) + if a.last() == b.last() {
            0nat
        } else {
            1nat
        }
    }
}

/// Number of energized coils.
pub open spec fn coils_on(a: Seq<bool>) -> nat
    decreases a.len(),
{
    if a.len() == 0 {
        0
    } else {
        coils_on(a.drop_last()) + if a.last() {
            1nat
        } else {
            0nat
        }
    }
}

/// Every full-step pattern energizes two coils and every half-step pattern
/// one or two; from one phase to the next, a full step switches two coils
/// and a half step one.
pub proof fn lemma_sequence_shapes(mode: StepMode, phase: int)
    requires
        0 <= phase < mode.sequence_len(),
    ensures
        mode == StepMode::Full ==> coils_on(mode.sequence()[phase]) == 2,
        mode == StepMode::Half ==> 1 <= coils_on(mode.sequence()[phase]) <= 2,
        mode == StepMode::Full ==> coils_changed(
            mode.sequence()[phase],
            mode.sequence()[(phase + 1) % 4],
        ) == 2,
        mode == StepMode::Half ==> coils_changed(
            mode.sequence()[phase],
            mode.sequence()[(phase + 1) % 8],
        ) == 1,
{
    reveal_with_fuel(coils_on, 5);
    reveal_with_fuel(coils_changed, 5);
    if mode == StepMode::Full {
        assert(phase == 0 || phase == 1 || phase == 2 || phase == 3);
    } else {
        assert(phase == 0 || phase == 1 || phase == 2 || phase == 3 || phase == 4 || phase == 5
            || phase == 6 || phase == 7);
    }
}

} // verus!
