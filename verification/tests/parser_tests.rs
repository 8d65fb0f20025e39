use pointer_motion::command::{Action, Button, GestureCommand, LogLevel};
use pointer_motion::fixed::Fixed;
use pointer_motion::parser::{is_log_message, parse, ParseError};

fn f(raw: i64) -> Fixed {
    Fixed { raw }
}

#[test]
fn parse_buttons() {
    let cases = [
        ("left click", Button::Left, Action::Click),
        ("left down", Button::Left, Action::Press),
        ("left up", Button::Left, Action::Release),
        ("middle click", Button::Middle, Action::Click),
        ("middle down", Button::Middle, Action::Press),
        ("middle up", Button::Middle, Action::Release),
        ("right click", Button::Right, Action::Click),
        ("right down", Button::Right, Action::Press),
        ("right up", Button::Right, Action::Release),
    ];
    for (text, button, action) in cases {
        assert_eq!(
            parse(text.as_bytes()),
            Ok(Some(GestureCommand::ButtonAction { button, action })),
            "{}",
            text
        );
    }
}

#[test]
fn parse_button_errors() {
    assert_eq!(parse(b"left"), Err(ParseError::MissingToken));
    assert_eq!(parse(b"left "), Err(ParseError::UnknownAction));
    assert_eq!(parse(b"left press"), Err(ParseError::UnknownAction));
    assert_eq!(parse(b"right Click"), Err(ParseError::UnknownAction));
    assert_eq!(parse(b"middle  click"), Err(ParseError::UnknownAction));
    assert_eq!(parse(b"left clicks"), Err(ParseError::UnknownAction));
    assert_eq!(parse(b"left cli"), Err(ParseError::UnknownAction));
}

#[test]
fn parse_touch() {
    assert_eq!(
        parse(b"touch 1.3 1.3"),
        Ok(Some(GestureCommand::TouchDelta { dx: f(1_300_000_000), dy: f(1_300_000_000) }))
    );
    assert_eq!(
        parse(b"touch -2.5 0"),
        Ok(Some(GestureCommand::TouchDelta { dx: f(-2_500_000_000), dy: f(0) }))
    );
    assert_eq!(
        parse(b"touch 1e-3 .5"),
        Ok(Some(GestureCommand::TouchDelta { dx: f(1_000_000), dy: f(500_000_000) }))
    );
}

#[test]
fn parse_touch_errors() {
    assert_eq!(parse(b"touch"), Err(ParseError::MissingToken));
    assert_eq!(parse(b"touch 1.3"), Err(ParseError::MissingToken));
    assert_eq!(parse(b"touch x"), Err(ParseError::MalformedNumber));
    assert_eq!(parse(b"touch x y"), Err(ParseError::MalformedNumber));
    assert_eq!(parse(b"touch 1.3 y"), Err(ParseError::MalformedNumber));
    assert_eq!(parse(b"touch  1.3 1.3"), Err(ParseError::MalformedNumber));
    assert_eq!(parse(b"touch 1.3  1.3"), Err(ParseError::MalformedNumber));
    assert_eq!(parse(b"touch 1.3 "), Err(ParseError::MalformedNumber));
    assert_eq!(parse(b"touch 1,3 1,3"), Err(ParseError::MalformedNumber));
    assert_eq!(parse(b"touch 1.3\t1.3"), Err(ParseError::MalformedNumber));
    assert_eq!(parse(b"touch 1.3 1.3\n"), Err(ParseError::MalformedNumber));
}

#[test]
fn parse_spin() {
    assert_eq!(
        parse(b"spin 10.0 0.0"),
        Ok(Some(GestureCommand::SpinVector { vx: f(10_000_000_000), vy: f(0) }))
    );
    assert_eq!(
        parse(b"spin -0.25 +4"),
        Ok(Some(GestureCommand::SpinVector { vx: f(-250_000_000), vy: f(4_000_000_000) }))
    );
    assert_eq!(parse(b"spin"), Err(ParseError::MissingToken));
    assert_eq!(parse(b"spin 1"), Err(ParseError::MissingToken));
    assert_eq!(parse(b"spin a 1"), Err(ParseError::MalformedNumber));
    assert_eq!(parse(b"spin 1 b"), Err(ParseError::MalformedNumber));
}

#[test]
fn parse_scroll() {
    assert_eq!(parse(b"scroll 2.5"), Ok(Some(GestureCommand::ScrollDelta { dy: f(2_500_000_000) })));
    assert_eq!(parse(b"scroll -1"), Ok(Some(GestureCommand::ScrollDelta { dy: f(-1_000_000_000) })));
    assert_eq!(parse(b"scroll"), Err(ParseError::MissingToken));
    assert_eq!(parse(b"scroll "), Err(ParseError::MalformedNumber));
    assert_eq!(parse(b"scroll up"), Err(ParseError::MalformedNumber));
}

#[test]
fn parse_sleep() {
    assert_eq!(parse(b"sleep 250"), Ok(Some(GestureCommand::Sleep { millis: 250 })));
    assert_eq!(parse(b"sleep 0"), Ok(Some(GestureCommand::Sleep { millis: 0 })));
    assert_eq!(parse(b"sleep +5"), Ok(Some(GestureCommand::Sleep { millis: 5 })));
    assert_eq!(
        parse(b"sleep 18446744073709551615"),
        Ok(Some(GestureCommand::Sleep { millis: u64::MAX }))
    );
    assert_eq!(parse(b"sleep 18446744073709551616"), Err(ParseError::MalformedNumber));
    assert_eq!(parse(b"sleep"), Err(ParseError::MissingToken));
    assert_eq!(parse(b"sleep -1"), Err(ParseError::MalformedNumber));
    assert_eq!(parse(b"sleep 1.5"), Err(ParseError::MalformedNumber));
    assert_eq!(parse(b"sleep 1e3"), Err(ParseError::MalformedNumber));
    assert_eq!(parse(b"sleep soon"), Err(ParseError::MalformedNumber));
}

#[test]
fn parse_log() {
    assert_eq!(
        parse(b"log Info: all is well"),
        Ok(Some(GestureCommand::LogMessage {
            level: LogLevel::Info,
            text: b"all is well".to_vec()
        }))
    );
    assert_eq!(
        parse(b"log Debug: x"),
        Ok(Some(GestureCommand::LogMessage { level: LogLevel::Debug, text: b"x".to_vec() }))
    );
    assert_eq!(
        parse(b"log Warning: two  spaces "),
        Ok(Some(GestureCommand::LogMessage {
            level: LogLevel::Warning,
            text: b"two  spaces ".to_vec()
        }))
    );
    assert_eq!(
        parse("log Error: caf\u{e9} \u{2713}".as_bytes()),
        Ok(Some(GestureCommand::LogMessage {
            level: LogLevel::Error,
            text: "caf\u{e9} \u{2713}".as_bytes().to_vec()
        }))
    );
}

#[test]
fn parse_log_without_text() {
    assert_eq!(
        parse(b"log Info:"),
        Ok(Some(GestureCommand::LogMessage { level: LogLevel::Info, text: Vec::new() }))
    );
    assert_eq!(
        parse(b"log Info: "),
        Ok(Some(GestureCommand::LogMessage { level: LogLevel::Info, text: Vec::new() }))
    );
    assert_eq!(
        parse(b"log Info:  "),
        Ok(Some(GestureCommand::LogMessage { level: LogLevel::Info, text: b" ".to_vec() }))
    );
}

#[test]
fn parse_log_errors() {
    assert_eq!(parse(b"log"), Err(ParseError::MissingToken));
    assert_eq!(parse(b"log "), Err(ParseError::UnknownLevel));
    assert_eq!(parse(b"log Info all is well"), Err(ParseError::UnknownLevel));
    assert_eq!(parse(b"log info: all is well"), Err(ParseError::UnknownLevel));
    assert_eq!(parse(b"log Fatal: no"), Err(ParseError::UnknownLevel));
    assert_eq!(parse(b"log  Info: x"), Err(ParseError::UnknownLevel));
}

#[test]
fn parse_unknown_verbs_are_nothing() {
    for text in [
        "", " ", "jump", "Touch 1 1", "TOUCH 1 1", " touch 1 1", "touch\t1 1", "lef click",
        "leftt click", "logs Info: x", "#", "sleeps 5", "scrol 1", "spinn 1 1", "touché 1 1",
    ] {
        assert_eq!(parse(text.as_bytes()), Ok(None), "{:?}", text);
    }
    assert_eq!(parse(&[0xff, 0xfe, 0x20, 0x31]), Ok(None));
}

#[test]
fn parse_ignores_tokens_beyond_those_needed() {
    assert_eq!(
        parse(b"left click now"),
        Ok(Some(GestureCommand::ButtonAction { button: Button::Left, action: Action::Click }))
    );
    assert_eq!(
        parse(b"touch 1 2 3 x"),
        Ok(Some(GestureCommand::TouchDelta { dx: f(1_000_000_000), dy: f(2_000_000_000) }))
    );
    assert_eq!(parse(b"sleep 5 "), Ok(Some(GestureCommand::Sleep { millis: 5 })));
    assert_eq!(parse(b"scroll 1 x"), Ok(Some(GestureCommand::ScrollDelta { dy: f(1_000_000_000) })));
}

#[test]
fn log_messages_are_told_apart() {
    assert!(is_log_message(b"log"));
    assert!(is_log_message(b"log Info: x"));
    assert!(is_log_message(b"log "));
    assert!(!is_log_message(b""));
    assert!(!is_log_message(b"lo"));
    assert!(!is_log_message(b"logs"));
    assert!(!is_log_message(b" log"));
    assert!(!is_log_message(b"Log x"));
    assert!(!is_log_message(b"touch 1 1"));
}

#[test]
fn levels_have_their_colours() {
    assert_eq!(LogLevel::Debug.colour(), (0xa0, 0xa0, 0xa0));
    assert_eq!(LogLevel::Info.colour(), (0x00, 0xa0, 0x00));
    assert_eq!(LogLevel::Warning.colour(), (0xff, 0x7c, 0x00));
    assert_eq!(LogLevel::Error.colour(), (0xb0, 0x00, 0x00));
}
