//! Capture pacing, input correlation and effect-timeline compilation for a
//! screen recorder, in exact fixed-point arithmetic.
//!
//! While a recording runs, `pacer` turns frames that arrive at any rate
//! into a constant-rate stream, and `gesture` turns pointer events into a
//! log of triple clicks and a log of cursor samples. For an export,
//! `timeline`, `pan`, `overlay` and `export` turn zoom effects and the
//! cursor log into the text of a filter graph, `cursor_art` draws the
//! cursor image, and `encode` picks the encoder and says what follows a
//! failure.
//!
//! Times are microseconds and all other quantities fixed-point numbers
//! with six decimal places (`fixed::UNIT` to the unit), so every result
//! is an exact integer function of its arguments.

pub mod coords;
pub mod cursor;
pub mod cursor_art;
pub mod cursor_style;
pub mod encode;
pub mod export;
pub mod fixed;
pub mod frame;
pub mod gesture;
pub mod keyframes;
pub mod overlay;
pub mod pacer;
pub mod pan;
pub mod preview;
pub mod probe;
pub mod rate;
pub mod recorder;
pub mod text;
pub mod timeline;
pub mod zoomtext;
