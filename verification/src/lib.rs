//! A polyrhythmic percussion engine.
//!
//! Held notes are expanded into trigger patterns by [`pattern`], the
//! per-channel voices are stepped by [`synth`], and the same patterns are
//! rendered offline into a note-event file by [`synth::Config::generate_midi`].
use vstd::prelude::*;

pub mod pattern;
pub mod synth;

verus! {

/// Number of independent percussion channels.
pub const NUM_CHANNELS: usize = 11;

/// Number of beats of lookahead held in one pattern word.
pub const PATTERN_LENGTH: u64 = 32;

/// Number of note slots that one channel owns (one octave).
pub const NOTES_PER_CHANNEL: u64 = 12;

} // verus!
