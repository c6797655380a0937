//! Dice expressions of the shape `NdM`: parsing, rolling and the aligned text report of a roll.
//!
//! A token such as `3d6` is parsed to a [`dice::Dice`]; its dice are rolled with a generator
//! of the `rand` crate; and the rolls are written as a block of lines of one display width,
//! each roll on a line of its own, ones and highest faces marked with a glyph, the sum below.
//!
//! - [`dice`]: the expression, its text, and how a token parses to it
//! - [`pattern`]: where an expression stands in a token
//! - [`decimal`]: decimal numerals, written and read
//! - [`roll`]: rolling, and the kinds of roll
//! - [`columns`]: the display columns of a text
//! - [`layout`]: lines of text in columns
//! - [`report`]: the display width and the report of a roll

pub mod columns;
pub mod decimal;
pub mod dice;
pub mod layout;
pub mod pattern;
pub mod report;
pub mod roll;
