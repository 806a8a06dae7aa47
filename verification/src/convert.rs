//! The conversion and the pieces it is built from.
pub mod conv;
pub mod cue;
pub mod laws;
pub mod lines;
pub mod markup;
pub mod number;
pub mod pattern;
pub mod text;
