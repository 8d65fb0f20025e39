//! A pointer motion engine: turns a stream of textual gesture messages into
//! whole-unit pointer movements, without losing the fractions in between.
//!
//! All motion arithmetic is done on [`fixed::Fixed`], a decimal fixed-point
//! number, so that every rounding step is exact and can be reasoned about.
//!
//! - [`fixed`] and [`decimal`]: the numbers, and how they are read from text;
//! - [`quantizer`]: fractional movement to whole units, with the remainder
//!   carried on;
//! - [`command`] and [`parser`]: the gestures, and how a message is decoded;
//! - [`momentum`]: the drift that follows a flick, tick by tick;
//! - [`session`]: what is to be done about each message;
//! - [`service`]: what the service tells its operator about itself.
//!
//! The library decides and computes; it performs nothing. Its host reads the
//! messages, moves the pointer and keeps the time.
pub mod command;
pub mod decimal;
pub mod fixed;
pub mod momentum;
pub mod parser;
pub mod quantizer;
pub mod service;
pub mod session;
