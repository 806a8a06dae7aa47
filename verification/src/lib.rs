//! WebVTT to SubRip subtitle conversion.
//!
//! The conversion is a pure function on text: the header of the WebVTT
//! document is dropped, every timing line opens a numbered cue, timestamps
//! take a comma before the milliseconds, cue settings and markup tags are
//! removed. Lines of the output end in a line feed, on every platform.
pub mod convert;
