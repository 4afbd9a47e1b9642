//! The voice of one channel: at most one clip, struck anew on every beat on
//! which the channel fires, and gone once its sound has run out.
use vstd::prelude::*;
use crate::pattern::{edge, slot_set};
use crate::{NOTES_PER_CHANNEL, NUM_CHANNELS};

verus! {

/// A sound that is playing, by the frame on which it was struck.
#[derive(Clone, Copy, PartialEq, Eq, Structural, Debug)]
pub struct TimedClip {
    pub start_clock: u64,
}

/// Whether the bit of `channel` is set in the mute word.
pub open spec fn channel_muted(muted: u64, channel: int) -> bool {
    (muted >> (channel as u64)) & 1 == 1
}

/// Whether the bit of `channel` is set in the mute word.
pub fn is_muted(muted: u64, channel: usize) -> (is_muted: bool)
    requires
        channel < NUM_CHANNELS,
    ensures
        is_muted == channel_muted(muted, channel as int),
{
    (muted >> (channel as u64)) & 1 == 1
}

/// The number of frames in a beat: a quarter of a quarter note at `bpm`
/// quarter notes per minute. Zero where there is no tempo.
pub open spec fn beat_frames(sample_rate: u32, bpm: u32) -> u64 {
    if bpm == 0 {
        0
    } else {
        ((sample_rate * 60) / (bpm * 4)) as u64
    }
}

/// The number of frames in a beat.
pub fn frames_per_beat(sample_rate: u32, bpm: u32) -> (frames: u64)
    ensures
        frames == beat_frames(sample_rate, bpm),
{
    if bpm == 0 {
        0
    } else {
        let rate: u64 = sample_rate as u64;
        let tempo: u64 = bpm as u64;
        (rate * 60) / (tempo * 4)
    }
}

/// Whether a beat begins on frame `clock`. With no frame to the beat no beat
/// ever begins.
pub open spec fn at_beat(clock: u64, frames_per_beat: u64) -> bool {
    frames_per_beat > 0 && clock % frames_per_beat == 0
}

/// The beat in which frame `clock` lies.
pub open spec fn beat_of(clock: u64, frames_per_beat: u64) -> u64 {
    clock / frames_per_beat
}

/// Whether a channel with the triggered mask `mask` is struck on frame
/// `clock`: a beat begins there, and the channel fires on it.
pub open spec fn retriggers(mask: u16, clock: u64, frames_per_beat: u64) -> bool {
    at_beat(clock, frames_per_beat) && edge(mask, beat_of(clock, frames_per_beat))
}

/// The clip of a voice once the beat of frame `clock`, if one begins there,
/// has been looked at: a strike replaces whatever was playing.
pub open spec fn clip_struck(
    clip: Option<TimedClip>,
    mask: u16,
    clock: u64,
    frames_per_beat: u64,
) -> Option<TimedClip> {
    if retriggers(mask, clock, frames_per_beat) {
        Some(TimedClip { start_clock: clock })
    } else {
        clip
    }
}

/// The frame after `clock`. The clock wraps: frame 0 follows the last
/// representable frame.
pub open spec fn next_frame(clock: u64) -> u64 {
    if clock == u64::MAX {
        0
    } else {
        (clock + 1) as u64
    }
}

/// The number of frames from `start` to `clock`, on a clock that wraps.
pub open spec fn frames_since(start: u64, clock: u64) -> u64 {
    if clock >= start {
        (clock - start) as u64
    } else {
        (clock + (u64::MAX - start) + 1) as u64
    }
}

/// The frame of its sound that a voice plays on frame `clock`, if any: none
/// where the channel is muted or idle, or where the sound, `len` frames
/// long, has run out.
pub open spec fn voice_index(clip: Option<TimedClip>, muted: bool, clock: u64, len: usize) -> Option<
    usize,
> {
    match clip {
        Some(c) => if !muted && frames_since(c.start_clock, clock) < len {
            Some(frames_since(c.start_clock, clock) as usize)
        } else {
            None
        },
        None => None,
    }
}

/// The clip of a voice after frame `clock`: one that has run out is gone,
/// unless the channel is muted, which leaves its voice as it is.
pub open spec fn clip_after(clip: Option<TimedClip>, muted: bool, clock: u64, len: usize) -> Option<
    TimedClip,
> {
    match clip {
        Some(c) => if !muted && frames_since(c.start_clock, clock) >= len {
            None
        } else {
            clip
        },
        None => None,
    }
}

/// Plays one frame of a voice: the clip that is left, and the frame of the
/// sound to play.
pub fn step_voice(clip: Option<TimedClip>, muted: bool, clock: u64, len: usize) -> (out: (
    Option<TimedClip>,
    Option<usize>,
))
    ensures
        out.0 == clip_after(clip, muted, clock, len),
        out.1 == voice_index(clip, muted, clock, len),
{
    match clip {
        Some(c) => {
            if muted {
                (clip, None)
            } else {
                let elapsed: u64 = if clock >= c.start_clock {
                    clock - c.start_clock
                } else {
                    clock + (u64::MAX - c.start_clock) + 1
                };
                if elapsed < len as u64 {
                    (clip, Some(elapsed as usize))
                } else {
                    (None, None)
                }
            }
        },
        None => (None, None),
    }
}

/// The channel to which the note `note` belongs: each channel owns one
/// octave.
pub open spec fn note_channel(note: u8) -> int {
    note as int / NOTES_PER_CHANNEL as int
}

/// The note slot of `note` within its channel.
pub open spec fn note_slot(note: u8) -> u64 {
    (note as u64 % NOTES_PER_CHANNEL) as u64
}

/// The mask `mask` with note slot `slot` set.
pub open spec fn with_slot(mask: u16, slot: u64) -> u16 {
    mask | (1u16 << slot)
}

/// The mask `mask` with note slot `slot` cleared.
pub open spec fn without_slot(mask: u16, slot: u64) -> u16 {
    mask & !(1u16 << slot)
}

/// A key that goes down sets its note slot and leaves the others as they
/// are.
pub proof fn lemma_with_slot(mask: u16, slot: u64, other: u64)
    by (bit_vector)
    requires
        slot < 16,
        other < 16,
    ensures
        slot_set(with_slot(mask, slot), other) == (other == slot || slot_set(mask, other)),
{
}

/// A key that goes up clears its note slot and leaves the others as they
/// are.
pub proof fn lemma_without_slot(mask: u16, slot: u64, other: u64)
    by (bit_vector)
    requires
        slot < 16,
        other < 16,
    ensures
        slot_set(without_slot(mask, slot), other) == (other != slot && slot_set(mask, other)),
{
}

} // verus!
