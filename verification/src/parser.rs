//! Decodes one message of a client into the gesture that it asks for.
//!
//! A message is a line of tokens with one space between each two. The first
//! token is the verb; the tokens behind it are what the verb needs.
use crate::command::{Action, Button, Gesture, GestureCommand, LogLevel};
use crate::decimal::{
    decimal_raw, is_decimal, is_unsigned_text, parse_decimal, parse_u64, unsigned_value,
};
use crate::fixed::Fixed;
use vstd::prelude::*;
use vstd::slice::{slice_subrange, slice_to_vec};

verus! {

/// The byte that parts two tokens.
pub const SPACE: u8 = ' ' as u8;

/// Verb of a message about the left button.
pub const LEFT: [u8; 4] = ['l' as u8, 'e' as u8, 'f' as u8, 't' as u8];

/// Verb of a message about the middle button.
pub const MIDDLE: [u8; 6] = ['m' as u8, 'i' as u8, 'd' as u8, 'd' as u8, 'l' as u8, 'e' as u8];

/// Verb of a message about the right button.
pub const RIGHT: [u8; 5] = ['r' as u8, 'i' as u8, 'g' as u8, 'h' as u8, 't' as u8];

/// Verb of a drag: the pointer moves at once, by the two numbers behind it.
pub const TOUCH: [u8; 5] = ['t' as u8, 'o' as u8, 'u' as u8, 'c' as u8, 'h' as u8];

/// Verb of a flick: the pointer drifts on, at the velocity behind it.
pub const SPIN: [u8; 4] = ['s' as u8, 'p' as u8, 'i' as u8, 'n' as u8];

/// Verb of a turn of the wheel, by the number behind it.
pub const SCROLL: [u8; 6] = ['s' as u8, 'c' as u8, 'r' as u8, 'o' as u8, 'l' as u8, 'l' as u8];

/// Verb of a pause, of as many milliseconds as the count behind it.
pub const SLEEP: [u8; 5] = ['s' as u8, 'l' as u8, 'e' as u8, 'e' as u8, 'p' as u8];

/// Verb of a message for the operator: a level, then the text.
pub const LOG: [u8; 3] = ['l' as u8, 'o' as u8, 'g' as u8];

/// The button is pressed and released.
pub const CLICK: [u8; 5] = ['c' as u8, 'l' as u8, 'i' as u8, 'c' as u8, 'k' as u8];

/// The button is pressed.
pub const DOWN: [u8; 4] = ['d' as u8, 'o' as u8, 'w' as u8, 'n' as u8];

/// The button is released.
pub const UP: [u8; 2] = ['u' as u8, 'p' as u8];

/// Level of a message that only a developer needs.
pub const DEBUG: [u8; 6] = ['D' as u8, 'e' as u8, 'b' as u8, 'u' as u8, 'g' as u8, ':' as u8];

/// Level of a message that tells of the usual.
pub const INFO: [u8; 5] = ['I' as u8, 'n' as u8, 'f' as u8, 'o' as u8, ':' as u8];

/// Level of a message that tells of something odd.
pub const WARNING: [u8; 8] = [
    'W' as u8,
    'a' as u8,
    'r' as u8,
    'n' as u8,
    'i' as u8,
    'n' as u8,
    'g' as u8,
    ':' as u8,
];

/// Level of a message that tells of a failure.
pub const ERROR: [u8; 6] = ['E' as u8, 'r' as u8, 'r' as u8, 'o' as u8, 'r' as u8, ':' as u8];

/// Why a message could not be decoded.
#[derive(Clone, Copy, Debug, PartialEq, Eq, Structural)]
pub enum ParseError {
    /// The message ends before a token that its verb needs.
    MissingToken,
    /// A token that should be a number is none.
    MalformedNumber,
    /// The token behind a button names nothing that can be done to it.
    UnknownAction,
    /// The token behind `log` names no level.
    UnknownLevel,
}

/// The end of the token that starts at `from`: the place of the next space,
/// or the end of the message.
pub open spec fn span_end(s: Seq<u8>, from: int) -> int
    decreases s.len() - from,
{
    if 0 <= from < s.len() && s[from] != SPACE {
        span_end(s, from + 1)
    } else {
        from
    }
}

/// Where token `k` starts. Each space ends one token and starts the next, so
/// a token may be empty. A place beyond the end means that the message has
/// no such token.
pub open spec fn token_start(s: Seq<u8>, k: nat) -> int
    decreases k,
{
    if k == 0 {
        0
    } else {
        span_end(s, token_start(s, (k - 1) as nat)) + 1
    }
}

/// The message has a token `k`.
pub open spec fn has_token(s: Seq<u8>, k: nat) -> bool {
    token_start(s, k) <= s.len()
}

/// Token `k` of the message.
pub open spec fn token(s: Seq<u8>, k: nat) -> Seq<u8> {
    s.subrange(token_start(s, k), span_end(s, token_start(s, k)))
}

/// The message from the start of token `k` on; nothing where it has no such
/// token.
pub open spec fn text_from(s: Seq<u8>, k: nat) -> Seq<u8> {
    if has_token(s, k) {
        s.skip(token_start(s, k))
    } else {
        Seq::empty()
    }
}

/// The number that token `k` writes.
pub open spec fn number_at(s: Seq<u8>, k: nat) -> Result<int, ParseError> {
    if !has_token(s, k) {
        Err(ParseError::MissingToken)
    } else if !is_decimal(token(s, k)) {
        Err(ParseError::MalformedNumber)
    } else {
        Ok(decimal_raw(token(s, k)))
    }
}

/// The count that token `k` writes.
pub open spec fn count_at(s: Seq<u8>, k: nat) -> Result<int, ParseError> {
    if !has_token(s, k) {
        Err(ParseError::MissingToken)
    } else if !is_unsigned_text(token(s, k)) || unsigned_value(token(s, k)) > u64::MAX {
        Err(ParseError::MalformedNumber)
    } else {
        Ok(unsigned_value(token(s, k)) as int)
    }
}

/// What token `k` asks to do to a button.
pub open spec fn action_at(s: Seq<u8>, k: nat) -> Result<Action, ParseError> {
    if !has_token(s, k) {
        Err(ParseError::MissingToken)
    } else if token(s, k) == CLICK@ {
        Ok(Action::Click)
    } else if token(s, k) == DOWN@ {
        Ok(Action::Press)
    } else if token(s, k) == UP@ {
        Ok(Action::Release)
    } else {
        Err(ParseError::UnknownAction)
    }
}

/// The level that token `k` names.
pub open spec fn level_at(s: Seq<u8>, k: nat) -> Result<LogLevel, ParseError> {
    if !has_token(s, k) {
        Err(ParseError::MissingToken)
    } else if token(s, k) == DEBUG@ {
        Ok(LogLevel::Debug)
    } else if token(s, k) == INFO@ {
        Ok(LogLevel::Info)
    } else if token(s, k) == WARNING@ {
        Ok(LogLevel::Warning)
    } else if token(s, k) == ERROR@ {
        Ok(LogLevel::Error)
    } else {
        Err(ParseError::UnknownLevel)
    }
}

/// The gesture of a message whose verb names `button`.
pub open spec fn button_gesture(s: Seq<u8>, button: Button) -> Result<Option<Gesture>, ParseError> {
    match action_at(s, 1) {
        Ok(action) => Ok(Some(Gesture::ButtonAction { button, action })),
        Err(e) => Err(e),
    }
}

/// The gesture of a message whose verb takes two numbers.
pub open spec fn pair_gesture(s: Seq<u8>, touch: bool) -> Result<Option<Gesture>, ParseError> {
    match number_at(s, 1) {
        Ok(a) => match number_at(s, 2) {
            Ok(b) => Ok(
                Some(
                    if touch {
                        Gesture::TouchDelta { dx: a, dy: b }
                    } else {
                        Gesture::SpinVector { vx: a, vy: b }
                    },
                ),
            ),
            Err(e) => Err(e),
        },
        Err(e) => Err(e),
    }
}

/// What a message decodes to: a gesture; nothing, where its verb is not
/// known; or an error, where its verb is known and the tokens behind it are
/// not what the verb needs. Tokens beyond those that the verb needs are not
/// looked at.
pub open spec fn parsed(s: Seq<u8>) -> Result<Option<Gesture>, ParseError> {
    let verb = token(s, 0);
    if verb == LOG@ {
        match level_at(s, 1) {
            Ok(level) => Ok(Some(Gesture::LogMessage { level, text: text_from(s, 2) })),
            Err(e) => Err(e),
        }
    } else if verb == LEFT@ {
        button_gesture(s, Button::Left)
    } else if verb == MIDDLE@ {
        button_gesture(s, Button::Middle)
    } else if verb == RIGHT@ {
        button_gesture(s, Button::Right)
    } else if verb == TOUCH@ {
        pair_gesture(s, true)
    } else if verb == SPIN@ {
        pair_gesture(s, false)
    } else if verb == SCROLL@ {
        match number_at(s, 1) {
            Ok(dy) => Ok(Some(Gesture::ScrollDelta { dy })),
            Err(e) => Err(e),
        }
    } else if verb == SLEEP@ {
        match count_at(s, 1) {
            Ok(millis) => Ok(Some(Gesture::Sleep { millis })),
            Err(e) => Err(e),
        }
    } else {
        Ok(None)
    }
}

/// The message is one for the operator: its verb is `log`.
pub open spec fn is_log(s: Seq<u8>) -> bool {
    token(s, 0) == LOG@
}

/// A result of `parse` as contracts speak of it.
pub open spec fn outcome_view(r: Result<Option<GestureCommand>, ParseError>) -> Result<
    Option<Gesture>,
    ParseError,
> {
    match r {
        Ok(Some(command)) => Ok(Some(command@)),
        Ok(None) => Ok(None),
        Err(e) => Err(e),
    }
}

/// Says whether two runs of bytes are the same.
fn same_bytes(a: &[u8], b: &[u8]) -> (r: bool)
    ensures
        r == (a@ == b@),
{
    if a.len() != b.len() {
        return false;
    }
    let mut i: usize = 0;
    while i < a.len()
        invariant
            a.len() == b.len(),
            i <= a.len(),
            forall|j: int| 0 <= j < i ==> a@[j] == b@[j],
        decreases a.len() - i,
    {
        if a[i] != b[i] {
            return false;
        }
        i = i + 1;
    }
    assert(a@ =~= b@);
    true
}

/// Finds the end of the token that starts at `from`.
fn scan_token(raw: &[u8], from: usize) -> (end: usize)
    requires
        from <= raw.len(),
    ensures
        from <= end <= raw.len(),
        end == span_end(raw@, from as int),
{
    let mut i: usize = from;
    while i < raw.len() && raw[i] != SPACE
        invariant
            from <= i <= raw.len(),
            span_end(raw@, from as int) == span_end(raw@, i as int),
        decreases raw.len() - i,
    {
        i = i + 1;
    }
    i
}

/// Finds token `k + 1`, given where token `k` ends.
fn following<'a>(raw: &'a [u8], end: usize, Ghost(k): Ghost<nat>) -> (r: Option<(&'a [u8], usize)>)
    requires
        token_start(raw@, k) <= raw.len(),
        end == span_end(raw@, token_start(raw@, k)),
    ensures
        r is Some <==> has_token(raw@, k + 1),
        r matches Some((word, next)) ==> word@ == token(raw@, k + 1) && next == span_end(
            raw@,
            token_start(raw@, k + 1),
        ),
{
    assert(end <= raw.len()) by {
        lemma_span_end_bounds(raw@, token_start(raw@, k));
    }
    if end < raw.len() {
        let next = scan_token(raw, end + 1);
        Some((slice_subrange(raw, end + 1, next), next))
    } else {
        None
    }
}

proof fn lemma_span_end_bounds(s: Seq<u8>, from: int)
    requires
        0 <= from <= s.len(),
    ensures
        from <= span_end(s, from) <= s.len(),
    decreases s.len() - from,
{
    if from < s.len() && s[from] != SPACE {
        lemma_span_end_bounds(s, from + 1);
    }
}

fn read_number(raw: &[u8], end: usize, Ghost(k): Ghost<nat>) -> (r: Result<
    (Fixed, usize),
    ParseError,
>)
    requires
        token_start(raw@, k) <= raw.len(),
        end == span_end(raw@, token_start(raw@, k)),
    ensures
        match r {
            Ok((v, next)) => number_at(raw@, k + 1) == Ok::<int, ParseError>(v@) && next
                == span_end(raw@, token_start(raw@, k + 1)),
            Err(e) => number_at(raw@, k + 1) == Err::<int, ParseError>(e),
        },
{
    match following(raw, end, Ghost(k)) {
        None => Err(ParseError::MissingToken),
        Some((word, next)) => match parse_decimal(word) {
            None => Err(ParseError::MalformedNumber),
            Some(v) => Ok((v, next)),
        },
    }
}

fn read_action(raw: &[u8], end: usize) -> (r: Result<Action, ParseError>)
    requires
        end == span_end(raw@, 0),
    ensures
        r == action_at(raw@, 1),
{
    match following(raw, end, Ghost(0)) {
        None => Err(ParseError::MissingToken),
        Some((word, _)) => {
            if same_bytes(word, CLICK.as_slice()) {
                Ok(Action::Click)
            } else if same_bytes(word, DOWN.as_slice()) {
                Ok(Action::Press)
            } else if same_bytes(word, UP.as_slice()) {
                Ok(Action::Release)
            } else {
                Err(ParseError::UnknownAction)
            }
        },
    }
}

fn read_button(raw: &[u8], end: usize, button: Button) -> (r: Result<
    Option<GestureCommand>,
    ParseError,
>)
    requires
        end == span_end(raw@, 0),
    ensures
        outcome_view(r) == button_gesture(raw@, button),
{
    match read_action(raw, end) {
        Ok(action) => Ok(Some(GestureCommand::ButtonAction { button, action })),
        Err(e) => Err(e),
    }
}

fn read_pair(raw: &[u8], end: usize, touch: bool) -> (r: Result<
    Option<GestureCommand>,
    ParseError,
>)
    requires
        end == span_end(raw@, 0),
    ensures
        outcome_view(r) == pair_gesture(raw@, touch),
{
    let (a, next) = match read_number(raw, end, Ghost(0)) {
        Ok(found) => found,
        Err(e) => {
            return Err(e);
        },
    };
    proof {
        if has_token(raw@, 1) {
            lemma_span_end_bounds(raw@, token_start(raw@, 1));
        }
    }
    let (b, _) = match read_number(raw, next, Ghost(1)) {
        Ok(found) => found,
        Err(e) => {
            return Err(e);
        },
    };
    if touch {
        Ok(Some(GestureCommand::TouchDelta { dx: a, dy: b }))
    } else {
        Ok(Some(GestureCommand::SpinVector { vx: a, vy: b }))
    }
}

fn read_log(raw: &[u8], end: usize) -> (r: Result<Option<GestureCommand>, ParseError>)
    requires
        end == span_end(raw@, 0),
    ensures
        outcome_view(r) == (match level_at(raw@, 1) {
            Ok(level) => Ok::<Option<Gesture>, ParseError>(
                Some(Gesture::LogMessage { level, text: text_from(raw@, 2) }),
            ),
            Err(e) => Err(e),
        }),
{
    let (word, next) = match following(raw, end, Ghost(0)) {
        None => {
            return Err(ParseError::MissingToken);
        },
        Some(found) => found,
    };
    let level = if same_bytes(word, DEBUG.as_slice()) {
        LogLevel::Debug
    } else if same_bytes(word, INFO.as_slice()) {
        LogLevel::Info
    } else if same_bytes(word, WARNING.as_slice()) {
        LogLevel::Warning
    } else if same_bytes(word, ERROR.as_slice()) {
        LogLevel::Error
    } else {
        return Err(ParseError::UnknownLevel);
    };
    proof {
        lemma_span_end_bounds(raw@, token_start(raw@, 1));
    }
    let text: Vec<u8> = if next < raw.len() {
        slice_to_vec(slice_subrange(raw, next + 1, raw.len()))
    } else {
        Vec::new()
    };
    proof {
        assert(text@ =~= text_from(raw@, 2));
    }
    Ok(Some(GestureCommand::LogMessage { level, text }))
}

/// Says whether the message is one for the operator.
pub fn is_log_message(raw: &[u8]) -> (r: bool)
    ensures
        r == is_log(raw@),
{
    let end = scan_token(raw, 0);
    same_bytes(slice_subrange(raw, 0, end), LOG.as_slice())
}

/// Decodes one message.
pub fn parse(raw: &[u8]) -> (r: Result<Option<GestureCommand>, ParseError>)
    ensures
        outcome_view(r) == parsed(raw@),
{
    let end = scan_token(raw, 0);
    let verb = slice_subrange(raw, 0, end);
    if same_bytes(verb, LOG.as_slice()) {
        read_log(raw, end)
    } else if same_bytes(verb, LEFT.as_slice()) {
        read_button(raw, end, Button::Left)
    } else if same_bytes(verb, MIDDLE.as_slice()) {
        read_button(raw, end, Button::Middle)
    } else if same_bytes(verb, RIGHT.as_slice()) {
        read_button(raw, end, Button::Right)
    } else if same_bytes(verb, TOUCH.as_slice()) {
        read_pair(raw, end, true)
    } else if same_bytes(verb, SPIN.as_slice()) {
        read_pair(raw, end, false)
    } else if same_bytes(verb, SCROLL.as_slice()) {
        match read_number(raw, end, Ghost(0)) {
            Ok((dy, _)) => Ok(Some(GestureCommand::ScrollDelta { dy })),
            Err(e) => Err(e),
        }
    } else if same_bytes(verb, SLEEP.as_slice()) {
        match following(raw, end, Ghost(0)) {
            None => Err(ParseError::MissingToken),
            Some((word, _)) => match parse_u64(word) {
                None => Err(ParseError::MalformedNumber),
                Some(millis) => Ok(Some(GestureCommand::Sleep { millis })),
            },
        }
    } else {
        Ok(None)
    }
}

} // verus!
