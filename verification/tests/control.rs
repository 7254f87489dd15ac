use turntable::control::{MotorAction, MotorControl};
use turntable::http::MotorCommand;
use turntable::stepper::Direction;

#[test]
fn idle_rotate_turns_then_releases() {
    let mut c = MotorControl::new();
    assert!(c.waits_for_command());
    let actions = c.on_poll(Some(MotorCommand::Rotate { degrees: 90.0f32, direction: Direction::Clockwise }));
    assert_eq!(
        actions,
        vec![MotorAction::Rotate { degrees: 90.0, direction: Direction::Clockwise }, MotorAction::Stop]
    );
    assert!(!c.continuous_mode);
}

#[test]
fn continuous_mode_steps_until_stopped() {
    let mut c = MotorControl::new();
    let start = c.on_poll(Some(MotorCommand::<f32>::Continuous { direction: Direction::CounterClockwise }));
    assert!(start.is_empty());
    assert!(c.continuous_mode);
    assert!(!c.waits_for_command());
    for _ in 0..3 {
        assert_eq!(
            c.on_poll(None::<MotorCommand<f32>>),
            vec![MotorAction::Step { direction: Direction::CounterClockwise }]
        );
    }
    let speed = c.on_poll(Some(MotorCommand::SetSpeed { rpm: 2.0f32 }));
    assert_eq!(speed, vec![MotorAction::SetSpeed { rpm: 2.0 }]);
    assert!(c.continuous_mode);
    let stop = c.on_poll(Some(MotorCommand::<f32>::Stop));
    assert_eq!(stop, vec![MotorAction::Stop]);
    assert!(!c.continuous_mode);
    assert!(c.on_poll(None::<MotorCommand<f32>>).is_empty());
}

#[test]
fn rotate_in_continuous_mode_stops_first() {
    let mut c = MotorControl::new();
    c.on_poll(Some(MotorCommand::<f32>::Continuous { direction: Direction::Clockwise }));
    let actions = c.on_poll(Some(MotorCommand::Rotate { degrees: 10.0f32, direction: Direction::CounterClockwise }));
    assert_eq!(
        actions,
        vec![
            MotorAction::Stop,
            MotorAction::Rotate { degrees: 10.0, direction: Direction::CounterClockwise },
            MotorAction::Stop
        ]
    );
    assert!(!c.continuous_mode);
}

#[test]
fn new_continuous_direction_replaces_the_old_one() {
    let mut c = MotorControl::new();
    c.on_poll(Some(MotorCommand::<f32>::Continuous { direction: Direction::Clockwise }));
    let actions = c.on_poll(Some(MotorCommand::<f32>::Continuous { direction: Direction::CounterClockwise }));
    assert_eq!(actions, vec![MotorAction::Stop]);
    assert!(c.continuous_mode);
    assert_eq!(c.continuous_direction, Direction::CounterClockwise);
}

#[test]
fn handle_command_alone() {
    let mut c = MotorControl::new();
    assert_eq!(c.handle_command(MotorCommand::<f32>::Stop), vec![MotorAction::Stop]);
    assert_eq!(c.handle_command(MotorCommand::SetSpeed { rpm: 1.0f32 }), vec![MotorAction::SetSpeed { rpm: 1.0 }]);
    assert!(c.handle_command(MotorCommand::<f32>::Continuous { direction: Direction::Clockwise }).is_empty());
    assert!(c.continuous_mode);
}
