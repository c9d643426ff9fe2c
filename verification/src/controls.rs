//! Remote control of the camera: commands that arrive as text are read and
//! turned into a one-unit move along one axis.

use vstd::prelude::*;

use crate::text::str_equals;

verus! {

/// A camera command.
#[derive(Clone, Copy, PartialEq, Eq, Structural, Debug)]
pub enum ControlCommand {
    /// `UP`: move up (+y).
    Up,
    /// `DOWN`: move down (-y).
    Down,
    /// `LEFT`: move left (-x).
    Left,
    /// `RIGHT`: move right (+x).
    Right,
    /// `ZOOM-IN`: move forward (-z).
    ZoomIn,
    /// `ZOOM-OUT`: move back (+z).
    ZoomOut,
    /// Any other text: nothing moves.
    Unknown,
}

/// The command that a text names; exactly the six command words are
/// recognized.
pub open spec fn command_of(input: Seq<char>) -> ControlCommand {
    if input == "UP"@ {
        ControlCommand::Up
    } else if input == "DOWN"@ {
        ControlCommand::Down
    } else if input == "LEFT"@ {
        ControlCommand::Left
    } else if input == "RIGHT"@ {
        ControlCommand::Right
    } else if input == "ZOOM-IN"@ {
        ControlCommand::ZoomIn
    } else if input == "ZOOM-OUT"@ {
        ControlCommand::ZoomOut
    } else {
        ControlCommand::Unknown
    }
}

/// Only the six exact command words move the camera: `UP`, `DOWN`, `LEFT`,
/// `RIGHT`, `ZOOM-IN` and `ZOOM-OUT` (upper case, nothing around them);
/// every other text is unknown.
pub proof fn law_command_words(input: Seq<char>)
    ensures
        command_of(input) == ControlCommand::Up <==> input == seq!['U', 'P'],
        command_of(input) == ControlCommand::Down <==> input == seq!['D', 'O', 'W', 'N'],
        command_of(input) == ControlCommand::Left <==> input == seq!['L', 'E', 'F', 'T'],
        command_of(input) == ControlCommand::Right <==> input == seq!['R', 'I', 'G', 'H', 'T'],
        command_of(input) == ControlCommand::ZoomIn <==> input == seq!['Z', 'O', 'O', 'M', '-', 'I', 'N'],
        command_of(input) == ControlCommand::ZoomOut <==> input == seq![
            'Z',
            'O',
            'O',
            'M',
            '-',
            'O',
            'U',
            'T',
        ],
{
    reveal_strlit("UP");
    reveal_strlit("DOWN");
    reveal_strlit("LEFT");
    reveal_strlit("RIGHT");
    reveal_strlit("ZOOM-IN");
    reveal_strlit("ZOOM-OUT");
    assert("UP"@ =~= seq!['U', 'P']);
    assert("DOWN"@ =~= seq!['D', 'O', 'W', 'N']);
    assert("LEFT"@ =~= seq!['L', 'E', 'F', 'T']);
    assert("RIGHT"@ =~= seq!['R', 'I', 'G', 'H', 'T']);
    assert("ZOOM-IN"@ =~= seq!['Z', 'O', 'O', 'M', '-', 'I', 'N']);
    assert("ZOOM-OUT"@ =~= seq!['Z', 'O', 'O', 'M', '-', 'O', 'U', 'T']);
}

/// Reads a control text.
pub fn parse_control(input: &str) -> (c: ControlCommand)
    ensures
        c == command_of(input@),
{
    if str_equals(input, "UP") {
        ControlCommand::Up
    } else if str_equals(input, "DOWN") {
        ControlCommand::Down
    } else if str_equals(input, "LEFT") {
        ControlCommand::Left
    } else if str_equals(input, "RIGHT") {
        ControlCommand::Right
    } else if str_equals(input, "ZOOM-IN") {
        ControlCommand::ZoomIn
    } else if str_equals(input, "ZOOM-OUT") {
        ControlCommand::ZoomOut
    } else {
        ControlCommand::Unknown
    }
}

impl ControlCommand {
    /// The move the command makes, as a step of -1, 0 or 1 along x, y and
    /// z, in units of the camera speed.
    pub fn movement_step(&self) -> (d: (i8, i8, i8))
        ensures
            *self == ControlCommand::Up ==> d == (0i8, 1i8, 0i8),
            *self == ControlCommand::Down ==> d == (0i8, -1i8, 0i8),
            *self == ControlCommand::Left ==> d == (-1i8, 0i8, 0i8),
            *self == ControlCommand::Right ==> d == (1i8, 0i8, 0i8),
            *self == ControlCommand::ZoomIn ==> d == (0i8, 0i8, -1i8),
            *self == ControlCommand::ZoomOut ==> d == (0i8, 0i8, 1i8),
            *self == ControlCommand::Unknown ==> d == (0i8, 0i8, 0i8),
    {
        match self {
            ControlCommand::Up => (0, 1, 0),
            ControlCommand::Down => (0, -1, 0),
            ControlCommand::Left => (-1, 0, 0),
            ControlCommand::Right => (1, 0, 0),
            ControlCommand::ZoomIn => (0, 0, -1),
            ControlCommand::ZoomOut => (0, 0, 1),
            ControlCommand::Unknown => (0, 0, 0),
        }
    }
}

} // verus!
