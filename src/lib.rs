//! Shortest round-trip formatting of IEEE-754 binary32 and binary64 values,
//! with fixed-decimal-place views of the rendered text.
//!
//! Values are passed by their bit patterns (`f64::to_bits`, `f32::to_bits`).
//! The pipeline: the bit decomposer (`ieee`) splits a pattern into its
//! fields, the digit generators (`d2s`, `f2s`) find the shortest decimal with
//! the power-of-five multipliers (`pow5`), the renderer (`render`) writes it
//! into a fixed buffer with its layout (`layout`), and `format` holds the
//! result and its fixed-decimal views.

pub mod ieee;
pub mod common;
pub mod digits;
pub mod pow5_full;
pub mod pow5_small;
pub mod pow5;
pub mod d2s;
pub mod f2s;
pub mod layout;
pub mod render;
pub mod denote;
pub mod format;

pub use crate::format::{Float, Formatted, Formatter, BUFFER_LEN};
pub use crate::layout::{FormattedMeta, FormattedView};
