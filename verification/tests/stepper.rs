use turntable::stepper::{Direction, StepMode, Stepper};

#[test]
fn steps_per_motor_revolution_by_mode() {
    assert_eq!(StepMode::Full.steps_per_motor_revolution(), 2048);
    assert_eq!(StepMode::Half.steps_per_motor_revolution(), 4096);
}

#[test]
fn new_stepper_is_half_step_at_rest() {
    let s = Stepper::new();
    assert_eq!(s.mode(), StepMode::Half);
    assert_eq!(s.current_step(), 0);
    assert_eq!(s.gear_reduction(), 1);
    assert_eq!(s.step_delay_us(), 0);
    assert_eq!(s.coils(), [false, false, false, false]);
}

#[test]
fn half_step_clockwise_sequence() {
    let mut s = Stepper::new();
    let expected = [
        [true, true, false, false],
        [false, true, false, false],
        [false, true, true, false],
        [false, false, true, false],
        [false, false, true, true],
        [false, false, false, true],
        [true, false, false, true],
        [true, false, false, false],
    ];
    for (k, pattern) in expected.iter().enumerate() {
        s.step(Direction::Clockwise);
        assert_eq!(s.current_step(), (k + 1) % 8);
        assert_eq!(&s.coils(), pattern);
    }
}

#[test]
fn half_step_counter_clockwise_wraps_to_last() {
    let mut s = Stepper::new();
    s.step(Direction::CounterClockwise);
    assert_eq!(s.current_step(), 7);
    assert_eq!(s.coils(), [true, false, false, true]);
    s.step(Direction::CounterClockwise);
    assert_eq!(s.current_step(), 6);
    assert_eq!(s.coils(), [false, false, false, true]);
}

#[test]
fn full_step_sequence_both_ways() {
    let mut s = Stepper::new();
    s.set_mode(StepMode::Full);
    s.step(Direction::Clockwise);
    assert_eq!(s.coils(), [false, true, true, false]);
    s.step(Direction::Clockwise);
    assert_eq!(s.coils(), [false, false, true, true]);
    s.step(Direction::Clockwise);
    assert_eq!(s.coils(), [true, false, false, true]);
    s.step(Direction::Clockwise);
    assert_eq!(s.current_step(), 0);
    assert_eq!(s.coils(), [true, true, false, false]);
    s.step(Direction::CounterClockwise);
    assert_eq!(s.current_step(), 3);
    assert_eq!(s.coils(), [true, false, false, true]);
}

#[test]
fn step_then_reverse_step_restores_phase() {
    let mut s = Stepper::new();
    s.step(Direction::Clockwise);
    s.step(Direction::Clockwise);
    let before = s.current_step();
    s.step(Direction::Clockwise);
    s.step(Direction::CounterClockwise);
    assert_eq!(s.current_step(), before);
}

#[test]
fn full_cycle_returns_to_start() {
    let mut s = Stepper::new();
    s.step(Direction::Clockwise);
    let start = s.current_step();
    for _ in 0..8 {
        s.step(Direction::CounterClockwise);
    }
    assert_eq!(s.current_step(), start);
}

#[test]
fn mode_switch_keeps_phase_and_may_forbid_reverse_step() {
    let mut s = Stepper::new();
    for _ in 0..5 {
        s.step(Direction::Clockwise);
    }
    s.set_mode(StepMode::Full);
    assert_eq!(s.current_step(), 5);
    assert!(!s.can_step(Direction::CounterClockwise));
    assert!(s.can_step(Direction::Clockwise));
    s.step(Direction::Clockwise);
    assert_eq!(s.current_step(), 2);
    assert_eq!(s.coils(), [false, false, true, true]);
}

#[test]
fn mode_switch_there_and_back_keeps_phase() {
    let mut s = Stepper::new();
    for _ in 0..6 {
        s.step(Direction::Clockwise);
    }
    s.set_mode(StepMode::Full);
    s.set_mode(StepMode::Half);
    assert_eq!(s.current_step(), 6);
    s.step(Direction::Clockwise);
    assert_eq!(s.current_step(), 7);
    assert_eq!(s.coils(), [true, false, false, true]);
}

#[test]
fn full_step_counter_clockwise_from_phase_four() {
    let mut s = Stepper::new();
    for _ in 0..4 {
        s.step(Direction::Clockwise);
    }
    s.set_mode(StepMode::Full);
    assert!(s.can_step(Direction::CounterClockwise));
    s.step(Direction::CounterClockwise);
    assert_eq!(s.current_step(), 3);
}

#[test]
fn output_revolution_returns_to_start() {
    let mut s = Stepper::new();
    s.set_gear_reduction(3);
    s.step(Direction::Clockwise);
    s.step(Direction::Clockwise);
    let start = s.current_step();
    let coils = s.coils();
    for _ in 0..s.steps_per_output_revolution() {
        s.step(Direction::CounterClockwise);
    }
    assert_eq!(s.current_step(), start);
    assert_eq!(s.coils(), coils);
}

#[test]
fn steps_compose() {
    let mut a = Stepper::new();
    for _ in 0..3 {
        a.step(Direction::Clockwise);
    }
    for _ in 0..7 {
        a.step(Direction::Clockwise);
    }
    let mut b = Stepper::new();
    for _ in 0..10 {
        b.step(Direction::Clockwise);
    }
    assert_eq!(a.current_step(), b.current_step());
    assert_eq!(a.coils(), b.coils());
}

#[test]
fn gear_reduction_is_at_least_one() {
    let mut s = Stepper::new();
    s.set_gear_reduction(0);
    assert_eq!(s.gear_reduction(), 1);
    s.set_gear_reduction(3);
    assert_eq!(s.gear_reduction(), 3);
}

#[test]
fn output_revolution_counts_gear_reduction() {
    let mut s = Stepper::new();
    assert_eq!(s.steps_per_output_revolution(), 4096);
    s.set_gear_reduction(3);
    assert_eq!(s.steps_per_output_revolution(), 12288);
    s.set_mode(StepMode::Full);
    assert_eq!(s.steps_per_output_revolution(), 6144);
}

#[test]
fn step_delay_has_a_floor() {
    let mut s = Stepper::new();
    s.set_step_delay_us(5);
    assert_eq!(s.step_delay_us(), 1000);
    s.set_step_delay_us(2500);
    assert_eq!(s.step_delay_us(), 2500);
    s.store_step_delay_us(7);
    assert_eq!(s.step_delay_us(), 7);
}

#[test]
fn stop_releases_all_coils() {
    let mut s = Stepper::new();
    s.step(Direction::Clockwise);
    s.stop();
    assert_eq!(s.coils(), [false, false, false, false]);
    assert_eq!(s.current_step(), 1);
}
