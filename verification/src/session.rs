//! What a session does with each message that it receives.
use crate::command::{Action, Button, Gesture, GestureCommand, LogLevel, SpinVector};
use crate::fixed::Fixed;
use crate::momentum::{
    coasted, lemma_zero_spin_cancels, loaded, motion_of, ticked, Momentum,
};
use crate::parser::{is_log, is_log_message, parse, parsed, ParseError};
use crate::quantizer::{
    carry_after, emitted_step, mouse_move_relative_err, mouse_scroll_y_err, CumulativeError,
};
use vstd::prelude::*;

verus! {

/// What the host has to do in answer to a message.
#[derive(Debug, PartialEq, Eq)]
pub enum Reaction {
    /// Nothing at all.
    Nothing,
    /// Show the text to the operator, in the colour of the level.
    Print { level: LogLevel, text: Vec<u8> },
    /// Click, press or release a button.
    Button { button: Button, action: Action },
    /// Move the pointer by `dx` and `dy` whole units, then send `cancel` to
    /// the momentum loop.
    Move { dx: i32, dy: i32, cancel: SpinVector },
    /// Send the flick to the momentum loop.
    Spin { intent: SpinVector },
    /// Scroll by `dy` whole units.
    Scroll { dy: i32 },
    /// Wait so many milliseconds before taking the next message.
    Sleep { millis: u64 },
}

/// A reaction as contracts speak of it.
pub enum Effect {
    Nothing,
    Print { level: LogLevel, text: Seq<u8> },
    Button { button: Button, action: Action },
    Move { dx: int, dy: int, cancel: (int, int) },
    Spin { vx: int, vy: int },
    Scroll { dy: int },
    Sleep { millis: int },
}

impl View for Reaction {
    type V = Effect;

    open spec fn view(&self) -> Effect {
        match *self {
            Reaction::Nothing => Effect::Nothing,
            Reaction::Print { level, text } => Effect::Print { level, text: text@ },
            Reaction::Button { button, action } => Effect::Button { button, action },
            Reaction::Move { dx, dy, cancel } => Effect::Move {
                dx: dx as int,
                dy: dy as int,
                cancel: (cancel.vx@, cancel.vy@),
            },
            Reaction::Spin { intent } => Effect::Spin { vx: intent.vx@, vy: intent.vy@ },
            Reaction::Scroll { dy } => Effect::Scroll { dy: dy as int },
            Reaction::Sleep { millis } => Effect::Sleep { millis: millis as int },
        }
    }
}

/// The remainders that the session works on, in raw steps: those of the
/// pointer, horizontal and vertical, and those of the scroll wheel, of which
/// only the vertical one is ever fed.
pub struct Carries {
    pub pointer_x: int,
    pub pointer_y: int,
    pub scroll_x: int,
    pub scroll_y: int,
}

/// The remainders of the two error states.
pub open spec fn carries_of(pointer_error: CumulativeError, scroll_error: CumulativeError)
    -> Carries {
    Carries {
        pointer_x: pointer_error.x(),
        pointer_y: pointer_error.y(),
        scroll_x: scroll_error.x(),
        scroll_y: scroll_error.y(),
    }
}

/// What is to be done about a gesture. A touch and a scroll are turned into
/// whole units by way of the remainder of their axis; a touch also cancels
/// what momentum there is, by a flick of nothing.
pub open spec fn effect_of(g: Gesture, c: Carries) -> Effect {
    match g {
        Gesture::LogMessage { level, text } => Effect::Print { level, text },
        Gesture::ButtonAction { button, action } => Effect::Button { button, action },
        Gesture::TouchDelta { dx, dy } => Effect::Move {
            dx: emitted_step(c.pointer_x, dx),
            dy: emitted_step(c.pointer_y, dy),
            cancel: (0, 0),
        },
        Gesture::SpinVector { vx, vy } => Effect::Spin { vx, vy },
        Gesture::ScrollDelta { dy } => Effect::Scroll { dy: emitted_step(c.scroll_y, dy) },
        Gesture::Sleep { millis } => Effect::Sleep { millis },
    }
}

/// The remainders that a gesture leaves. Only a touch and a scroll change
/// any, and each only its own.
pub open spec fn carries_after(g: Gesture, c: Carries) -> Carries {
    match g {
        Gesture::TouchDelta { dx, dy } => Carries {
            pointer_x: carry_after(c.pointer_x, dx),
            pointer_y: carry_after(c.pointer_y, dy),
            scroll_x: c.scroll_x,
            scroll_y: c.scroll_y,
        },
        Gesture::ScrollDelta { dy } => Carries {
            pointer_x: c.pointer_x,
            pointer_y: c.pointer_y,
            scroll_x: c.scroll_x,
            scroll_y: carry_after(c.scroll_y, dy),
        },
        _ => c,
    }
}

/// The gesture that a session acts on, if any. A session that runs dry
/// looks at no message but those for the operator.
pub open spec fn heeded(s: Seq<u8>, dry_run: bool) -> Result<Option<Gesture>, ParseError> {
    if dry_run && !is_log(s) {
        Ok(None)
    } else {
        parsed(s)
    }
}

/// What is to be done about a message.
pub open spec fn answer_to(s: Seq<u8>, dry_run: bool, c: Carries) -> Result<Effect, ParseError> {
    match heeded(s, dry_run) {
        Ok(Some(g)) => Ok(effect_of(g, c)),
        Ok(None) => Ok(Effect::Nothing),
        Err(e) => Err(e),
    }
}

/// The remainders that a message leaves.
pub open spec fn carries_left(s: Seq<u8>, dry_run: bool, c: Carries) -> Carries {
    match heeded(s, dry_run) {
        Ok(Some(g)) => carries_after(g, c),
        _ => c,
    }
}

/// A result of `handle_message` as contracts speak of it.
pub open spec fn answer_view(r: Result<Reaction, ParseError>) -> Result<Effect, ParseError> {
    match r {
        Ok(reaction) => Ok(reaction@),
        Err(e) => Err(e),
    }
}

/// Decides what to do about a gesture, and feeds what it moves through the
/// error states.
pub fn respond(
    command: GestureCommand,
    pointer_error: &mut CumulativeError,
    scroll_error: &mut CumulativeError,
) -> (r: Reaction)
    ensures
        r@ == effect_of(command@, carries_of(*old(pointer_error), *old(scroll_error))),
        carries_of(*final(pointer_error), *final(scroll_error)) == carries_after(
            command@,
            carries_of(*old(pointer_error), *old(scroll_error)),
        ),
        final(scroll_error).x() == old(scroll_error).x(),
{
    match command {
        GestureCommand::LogMessage { level, text } => Reaction::Print { level, text },
        GestureCommand::ButtonAction { button, action } => Reaction::Button { button, action },
        GestureCommand::TouchDelta { dx, dy } => {
            let (int_x, int_y) = mouse_move_relative_err(pointer_error, dx, dy);
            Reaction::Move {
                dx: int_x,
                dy: int_y,
                cancel: SpinVector { vx: Fixed::zero(), vy: Fixed::zero() },
            }
        },
        GestureCommand::SpinVector { vx, vy } => Reaction::Spin { intent: SpinVector { vx, vy } },
        GestureCommand::ScrollDelta { dy } => {
            let int_y = mouse_scroll_y_err(scroll_error, dy);
            Reaction::Scroll { dy: int_y }
        },
        GestureCommand::Sleep { millis } => Reaction::Sleep { millis },
    }
}

/// Decodes one message and decides what to do about it. With `dry_run`
/// set, only a message for the operator is decoded and acted on.
pub fn handle_message(
    raw: &[u8],
    dry_run: bool,
    pointer_error: &mut CumulativeError,
    scroll_error: &mut CumulativeError,
) -> (r: Result<Reaction, ParseError>)
    ensures
        answer_view(r) == answer_to(
            raw@,
            dry_run,
            carries_of(*old(pointer_error), *old(scroll_error)),
        ),
        carries_of(*final(pointer_error), *final(scroll_error)) == carries_left(
            raw@,
            dry_run,
            carries_of(*old(pointer_error), *old(scroll_error)),
        ),
        final(scroll_error).x() == old(scroll_error).x(),
{
    if dry_run && !is_log_message(raw) {
        return Ok(Reaction::Nothing);
    }
    match parse(raw) {
        Ok(Some(command)) => Ok(respond(command, pointer_error, scroll_error)),
        Ok(None) => Ok(Reaction::Nothing),
        Err(e) => Err(e),
    }
}

/// A touch cancels momentum: what a touch sends to the momentum loop is a
/// flick of nothing, and neither the tick that takes it in nor any tick
/// after that asks for any movement, as long as no further flick comes.
pub proof fn lemma_touch_cancels_momentum(
    dx: int,
    dy: int,
    c: Carries,
    before: Momentum,
    friction: int,
    sensitivity: int,
    k: nat,
)
    requires
        friction > 0,
    ensures
        effect_of(Gesture::TouchDelta { dx, dy }, c) matches Effect::Move { cancel, .. } && {
            &&& cancel == (0int, 0int)
            &&& motion_of(loaded(before, Some(cancel), sensitivity)) == (0int, 0int)
            &&& motion_of(coasted(ticked(before, Some(cancel), friction, sensitivity), friction, k))
                == (0int, 0int)
        },
{
    lemma_zero_spin_cancels(before, friction, sensitivity, k);
}

} // verus!
