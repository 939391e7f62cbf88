//! Shifting and trimming of SubRip subtitles.
//!
//! A subtitle file is a sequence of timed entries. This library parses the
//! signed timestamps that state a shift or a cutoff, moves every entry of a
//! sequence by the shift, drops the entries that fall before the origin of the
//! timeline or that end at or after the cutoff, and hands the text of a
//! SubRip file to and from the `subparse` crate, which also tells whether a
//! file is a SubRip file at all.

pub mod format;
pub mod shift;
pub mod srt;
pub mod timestamp;
pub mod timetypes;
