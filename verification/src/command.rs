//! The gestures that a client can ask for.
use crate::fixed::Fixed;
use vstd::prelude::*;

verus! {

/// A button of the mouse.
#[derive(Clone, Copy, Debug, PartialEq, Eq, Structural)]
pub enum Button {
    Left,
    Middle,
    Right,
}

/// What is done to a button.
#[derive(Clone, Copy, Debug, PartialEq, Eq, Structural)]
pub enum Action {
    Click,
    Press,
    Release,
}

/// How grave a message for the operator is.
#[derive(Clone, Copy, Debug, PartialEq, Eq, Structural)]
pub enum LogLevel {
    Debug,
    Info,
    Warning,
    Error,
}

/// The velocity of a flick, before it is scaled by the sensitivity.
#[derive(Clone, Copy, Debug, PartialEq, Eq, Structural)]
pub struct SpinVector {
    pub vx: Fixed,
    pub vy: Fixed,
}

/// One gesture, as a message of a client asks for it.
#[derive(Debug, PartialEq, Eq)]
pub enum GestureCommand {
    ButtonAction { button: Button, action: Action },
    TouchDelta { dx: Fixed, dy: Fixed },
    SpinVector { vx: Fixed, vy: Fixed },
    ScrollDelta { dy: Fixed },
    Sleep { millis: u64 },
    LogMessage { level: LogLevel, text: Vec<u8> },
}

/// A gesture as contracts speak of it: numbers by their raw value, text by
/// its bytes.
pub enum Gesture {
    ButtonAction { button: Button, action: Action },
    TouchDelta { dx: int, dy: int },
    SpinVector { vx: int, vy: int },
    ScrollDelta { dy: int },
    Sleep { millis: int },
    LogMessage { level: LogLevel, text: Seq<u8> },
}

impl View for GestureCommand {
    type V = Gesture;

    open spec fn view(&self) -> Gesture {
        match *self {
            GestureCommand::ButtonAction { button, action } => Gesture::ButtonAction {
                button,
                action,
            },
            GestureCommand::TouchDelta { dx, dy } => Gesture::TouchDelta { dx: dx@, dy: dy@ },
            GestureCommand::SpinVector { vx, vy } => Gesture::SpinVector { vx: vx@, vy: vy@ },
            GestureCommand::ScrollDelta { dy } => Gesture::ScrollDelta { dy: dy@ },
            GestureCommand::Sleep { millis } => Gesture::Sleep { millis: millis as int },
            GestureCommand::LogMessage { level, text } => Gesture::LogMessage {
                level,
                text: text@,
            },
        }
    }
}

/// The colour that a message of the level is shown in: red, green, blue.
pub open spec fn level_colour(level: LogLevel) -> (u8, u8, u8) {
    match level {
        LogLevel::Debug => (0xa0, 0xa0, 0xa0),
        LogLevel::Info => (0x00, 0xa0, 0x00),
        LogLevel::Warning => (0xff, 0x7c, 0x00),
        LogLevel::Error => (0xb0, 0x00, 0x00),
    }
}

impl LogLevel {
    /// The colour that a message of this level is shown in: red, green,
    /// blue.
    pub fn colour(self) -> (rgb: (u8, u8, u8))
        ensures
            rgb == level_colour(self),
    {
        match self {
            LogLevel::Debug => (0xa0, 0xa0, 0xa0),
            LogLevel::Info => (0x00, 0xa0, 0x00),
            LogLevel::Warning => (0xff, 0x7c, 0x00),
            LogLevel::Error => (0xb0, 0x00, 0x00),
        }
    }
}

} // verus!
