//! The motor task's decisions: what the motor does for each command from
//! the HTTP API, and stepping on while in continuous mode. The task itself
//! (receiving commands, driving the pins, waiting) performs the actions
//! that these functions return.

use vstd::prelude::*;

use crate::http::{request_line, request_reply, MotorCommand};
use crate::text::words;
use crate::stepper::Direction;

verus! {

/// One thing for the motor to do.
#[derive(Debug, Clone, Copy, PartialEq)]
pub enum MotorAction<N> {
    /// Release all coils.
    Stop,
    /// Set the output shaft speed.
    SetSpeed { rpm: N },
    /// Turn the output shaft by an angle.
    Rotate { degrees: N, direction: Direction },
    /// Make one step.
    Step { direction: Direction },
}

/// Whether the motor turns continuously, and in which direction.
#[derive(Debug, Clone, Copy, PartialEq, Eq, Structural)]
pub struct MotorControl {
    pub continuous_mode: bool,
    pub continuous_direction: Direction,
}

/// The actions for `command` outside continuous mode.
pub open spec fn command_actions<N>(command: MotorCommand<N>) -> Seq<MotorAction<N>> {
    match command {
        MotorCommand::Rotate { degrees, direction } => seq![
            MotorAction::Rotate { degrees, direction },
            MotorAction::Stop,
        ],
        MotorCommand::SetSpeed { rpm } => seq![MotorAction::SetSpeed { rpm }],
        MotorCommand::Continuous { direction } => seq![],
        MotorCommand::Stop => seq![MotorAction::Stop],
    }
}

/// The mode after `command`, from `control`.
pub open spec fn command_control<N>(control: MotorControl, command: MotorCommand<N>) -> MotorControl {
    match command {
        MotorCommand::Continuous { direction } => MotorControl {
            continuous_mode: true,
            continuous_direction: direction,
        },
        MotorCommand::Stop => MotorControl { continuous_mode: false, ..control },
        _ => control,
    }
}

/// The mode after a poll of the command channel that returned `received`.
pub open spec fn poll_control<N>(control: MotorControl, received: Option<MotorCommand<N>>) -> MotorControl {
    match received {
        None => control,
        Some(command) => if control.continuous_mode {
            match command {
                MotorCommand::Stop => MotorControl { continuous_mode: false, ..control },
                MotorCommand::SetSpeed { .. } => control,
                _ => command_control(MotorControl { continuous_mode: false, ..control }, command),
            }
        } else {
            command_control(control, command)
        },
    }
}

/// The actions after a poll of the command channel that returned
/// `received`.
pub open spec fn poll_actions<N>(control: MotorControl, received: Option<MotorCommand<N>>) -> Seq<
    MotorAction<N>,
> {
    match received {
        None => if control.continuous_mode {
            seq![MotorAction::Step { direction: control.continuous_direction }]
        } else {
            seq![]
        },
        Some(command) => if control.continuous_mode {
            match command {
                MotorCommand::Stop => seq![MotorAction::Stop],
                MotorCommand::SetSpeed { rpm } => seq![MotorAction::SetSpeed { rpm }],
                _ => seq![MotorAction::Stop] + command_actions(command),
            }
        } else {
            command_actions(command)
        },
    }
}

impl MotorControl {
    /// Not continuous; clockwise when continuous rotation starts without a
    /// direction of its own.
    pub fn new() -> (control: Self)
        ensures
            !control.continuous_mode,
            control.continuous_direction == Direction::Clockwise,
    {
        MotorControl { continuous_mode: false, continuous_direction: Direction::Clockwise }
    }

    /// Whether the task should wait for the next command rather than poll:
    /// it waits unless it turns continuously.
    pub fn waits_for_command(&self) -> (waits: bool)
        ensures
            waits == !self.continuous_mode,
    {
        !self.continuous_mode
    }

    /// Carry out `command`: rotate then release the coils, set the speed,
    /// start continuous rotation, or stop.
    pub fn handle_command<N>(&mut self, command: MotorCommand<N>) -> (actions: Vec<MotorAction<N>>)
        ensures
            *final(self) == command_control(*old(self), command),
            actions@ == command_actions(command),
    {
        match command {
            MotorCommand::Rotate { degrees, direction } => {
                vec![MotorAction::Rotate { degrees, direction }, MotorAction::Stop]
            },
            MotorCommand::SetSpeed { rpm } => vec![MotorAction::SetSpeed { rpm }],
            MotorCommand::Continuous { direction } => {
                self.continuous_mode = true;
                self.continuous_direction = direction;
                Vec::new()
            },
            MotorCommand::Stop => {
                self.continuous_mode = false;
                vec![MotorAction::Stop]
            },
        }
    }

    /// React to a poll of the command channel that returned `received`
    /// (`None` when no command was waiting). In continuous mode a missing
    /// command means one more step; a stop or a speed change is carried out
    /// at once; any other command first stops continuous rotation.
    pub fn on_poll<N>(&mut self, received: Option<MotorCommand<N>>) -> (actions: Vec<
        MotorAction<N>,
    >)
        ensures
            *final(self) == poll_control(*old(self), received),
            actions@ == poll_actions(*old(self), received),
    {
        match received {
            None => {
                if self.continuous_mode {
                    vec![MotorAction::Step { direction: self.continuous_direction }]
                } else {
                    Vec::new()
                }
            },
            Some(command) => {
                if self.continuous_mode {
                    match command {
                        MotorCommand::Stop => {
                            self.continuous_mode = false;
                            vec![MotorAction::Stop]
                        },
                        MotorCommand::SetSpeed { rpm } => vec![MotorAction::SetSpeed { rpm }],
                        _ => {
                            self.continuous_mode = false;
                            let mut actions = vec![MotorAction::Stop];
                            let mut rest = self.handle_command(command);
                            actions.append(&mut rest);
                            actions
                        },
                    }
                } else {
                    self.handle_command(command)
                }
            },
        }
    }
}


/// A stop command, in either mode, ends continuous rotation and does
/// nothing but release the coils.
pub proof fn lemma_stop_halts<N>(control: MotorControl)
    ensures
        !poll_control(control, Some(MotorCommand::<N>::Stop)).continuous_mode,
        poll_actions(control, Some(MotorCommand::<N>::Stop)) == seq![MotorAction::<N>::Stop],
{
}

/// A speed change keeps the mode and direction and does nothing but set
/// the speed.
pub proof fn lemma_speed_keeps_mode<N>(control: MotorControl, rpm: N)
    ensures
        poll_control(control, Some(MotorCommand::SetSpeed { rpm })) == control,
        poll_actions(control, Some(MotorCommand::SetSpeed { rpm })) == seq![
            MotorAction::SetSpeed { rpm },
        ],
{
}

/// A rotation ends continuous rotation, turns the shaft once and ends with
/// the coils released.
pub proof fn lemma_rotate_ends_released<N>(control: MotorControl, degrees: N, direction: Direction)
    ensures
        !poll_control(control, Some(MotorCommand::Rotate { degrees, direction })).continuous_mode,
        poll_actions(control, Some(MotorCommand::Rotate { degrees, direction })).last()
            == MotorAction::<N>::Stop,
        poll_actions(control, Some(MotorCommand::Rotate { degrees, direction })).contains(
            MotorAction::Rotate { degrees, direction },
        ),
{
    let actions = poll_actions(control, Some(MotorCommand::Rotate { degrees, direction }));
    if control.continuous_mode {
        assert(actions[1] == MotorAction::Rotate { degrees, direction });
    } else {
        assert(actions[0] == MotorAction::Rotate { degrees, direction });
    }
}

/// After a continuous command the motor turns in its direction: every poll
/// that finds no command makes one step that way and changes nothing else.
pub proof fn lemma_continuous_steps<N>(control: MotorControl, direction: Direction)
    ensures
        poll_control(control, Some(MotorCommand::<N>::Continuous { direction }))
            == (MotorControl { continuous_mode: true, continuous_direction: direction }),
        poll_control(
            poll_control(control, Some(MotorCommand::<N>::Continuous { direction })),
            None::<MotorCommand<N>>,
        ) == poll_control(control, Some(MotorCommand::<N>::Continuous { direction })),
        poll_actions(
            poll_control(control, Some(MotorCommand::<N>::Continuous { direction })),
            None::<MotorCommand<N>>,
        ) == seq![MotorAction::<N>::Step { direction }],
{
}

/// Outside continuous mode a poll that finds no command does nothing.
pub proof fn lemma_idle_without_command<N>(control: MotorControl)
    requires
        !control.continuous_mode,
    ensures
        poll_control(control, None::<MotorCommand<N>>) == control,
        poll_actions(control, None::<MotorCommand<N>>) == Seq::<MotorAction<N>>::empty(),
{
}


/// A `POST /api/stop` request, whatever its body and whatever the motor is
/// doing, is accepted and ends with the motor released and out of
/// continuous mode.
pub proof fn lemma_stop_request_stops_motor<N>(
    request: Seq<char>,
    index_html: Seq<char>,
    number: Option<N>,
    control: MotorControl,
)
    requires
        words(request_line(request)).len() >= 2,
        words(request_line(request))[0] == "POST"@,
        words(request_line(request))[1] == "/api/stop"@,
    ensures
        request_reply(request, index_html, number).response.status == 200,
        request_reply(request, index_html, number).command == Some(MotorCommand::<N>::Stop),
        !poll_control(control, request_reply(request, index_html, number).command).continuous_mode,
        poll_actions(control, request_reply(request, index_html, number).command) == seq![
            MotorAction::<N>::Stop,
        ],
{
    reveal_strlit("GET");
    reveal_strlit("POST");
    reveal_strlit("/api/");
    reveal_strlit("/api/stop");
    reveal_strlit("/api/rotate");
    reveal_strlit("/api/speed");
    reveal_strlit("/api/continuous");
    assert("GET"@.len() != "POST"@.len());
    assert("/api/stop"@.take(5) =~= "/api/"@);
    assert("/api/stop"@.len() != "/api/rotate"@.len());
    assert("/api/stop"@.len() != "/api/speed"@.len());
    assert("/api/stop"@.len() != "/api/continuous"@.len());
}

} // verus!
