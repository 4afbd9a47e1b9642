//! The pattern generator: from a mask of triggered note slots and a beat
//! index to the beats on which a channel fires.
use vstd::prelude::*;
use crate::PATTERN_LENGTH;

verus! {

/// Whether note slot `slot` is set in `mask`.
pub open spec fn slot_set(mask: u16, slot: u64) -> bool {
    (mask >> slot) & 1 == 1
}

/// The square wave of one note slot: it toggles every `slot + 1` beats and is
/// high on beat 0.
pub open spec fn slot_high(slot: u64, beat: u64) -> bool {
    (beat / ((slot + 1) as u64)) % 2 == 0
}

/// The combined wave of the note slots below `slots`: the XOR of the square
/// waves of those that are set in `mask`.
pub open spec fn wave_below(mask: u16, beat: u64, slots: u64) -> bool
    decreases slots,
{
    if slots == 0 {
        false
    } else {
        let slot = (slots - 1) as u64;
        wave_below(mask, beat, slot) != (slot_set(mask, slot) && slot_high(slot, beat))
    }
}

/// The combined wave of all twelve note slots of a channel at `beat`.
pub open spec fn wave(mask: u16, beat: u64) -> bool {
    wave_below(mask, beat, 12)
}

/// The beat before `beat`. Beat 0 has the last representable beat as its
/// predecessor: the counter wraps.
pub open spec fn previous_beat(beat: u64) -> u64 {
    if beat == 0 {
        u64::MAX
    } else {
        (beat - 1) as u64
    }
}

/// The beat `offset` beats after `beat`. The counter wraps: beat 0 follows
/// the last representable beat.
pub open spec fn beat_after(beat: u64, offset: u64) -> u64 {
    if beat + offset <= u64::MAX {
        (beat + offset) as u64
    } else {
        (beat + offset - u64::MAX - 1) as u64
    }
}

/// Whether a channel with the triggered mask `mask` fires on `beat`: the
/// combined wave differs from what it was one beat earlier.
pub open spec fn edge(mask: u16, beat: u64) -> bool {
    wave(mask, beat) != wave(mask, previous_beat(beat))
}

/// Whether bit `bit` of a pattern word is set.
pub open spec fn pattern_bit(word: u32, bit: u64) -> bool {
    (word >> bit) & 1 == 1
}

/// The beat `offset` beats after `beat`.
pub fn add_beats(beat: u64, offset: u64) -> (later: u64)
    ensures
        later == beat_after(beat, offset),
{
    if offset <= u64::MAX - beat {
        beat + offset
    } else {
        offset - (u64::MAX - beat) - 1
    }
}

/// The combined wave at `beat`.
pub fn wave_at(mask: u16, beat: u64) -> (high: bool)
    ensures
        high == wave(mask, beat),
{
    let mut high = false;
    let mut slot: u64 = 0;
    while slot < 12
        invariant
            slot <= 12,
            high == wave_below(mask, beat, slot),
        decreases 12 - slot,
    {
        if (mask >> slot) & 1 == 1 {
            let divisor: u64 = slot + 1;
            let slot_is_high = (beat / divisor) % 2 == 0;
            high = high != slot_is_high;
        }
        slot += 1;
    }
    high
}

/// Whether a channel with the triggered mask `triggered` fires on `beat`.
pub fn get_beat(triggered: u16, beat: u64) -> (fires: bool)
    ensures
        fires == edge(triggered, beat),
{
    let previous = if beat == 0 {
        u64::MAX
    } else {
        beat - 1
    };
    wave_at(triggered, beat) != wave_at(triggered, previous)
}

/// The pattern word that holds the first `offsets` beats from `beat` on:
/// the beat `b` beats after `beat` stands at bit `PATTERN_LENGTH - 1 - b`.
pub open spec fn pattern_prefix(mask: u16, beat: u64, offsets: u64) -> u32
    decreases offsets,
{
    if offsets == 0 {
        0
    } else {
        let offset = (offsets - 1) as u64;
        let rest = pattern_prefix(mask, beat, offset);
        if edge(mask, beat_after(beat, offset)) {
            rest | (1u32 << ((PATTERN_LENGTH - 1 - offset) as u64))
        } else {
            rest
        }
    }
}

/// The pattern word of a channel at `beat`: bit `PATTERN_LENGTH - 1` is the
/// beat itself, the bits below it are the beats that follow.
pub open spec fn pattern_word(mask: u16, beat: u64) -> u32 {
    pattern_prefix(mask, beat, PATTERN_LENGTH)
}

/// Setting one bit of a word sets that bit and leaves the others.
proof fn lemma_set_bit(word: u32, bit: u64)
    by (bit_vector)
    requires
        bit < 32,
    ensures
        forall|other: u64|
            other < 32 ==> (((word | (1u32 << bit)) >> other) & 1 == 1) == (other == bit || (word
                >> other) & 1 == 1),
{
}

/// No bit of the zero word is set.
proof fn lemma_zero_word(bit: u64)
    by (bit_vector)
    ensures
        (0u32 >> bit) & 1 == 0,
{
}

/// A pattern prefix holds exactly the edges of the beats it covers.
pub proof fn lemma_pattern_prefix_bits(mask: u16, beat: u64, offsets: u64)
    requires
        offsets <= PATTERN_LENGTH,
    ensures
        forall|offset: u64|
            offset < PATTERN_LENGTH ==> #[trigger] pattern_bit(
                pattern_prefix(mask, beat, offsets),
                (PATTERN_LENGTH - 1 - offset) as u64,
            ) == (offset < offsets && edge(mask, beat_after(beat, offset))),
    decreases offsets,
{
    if offsets == 0 {
        assert forall|offset: u64| offset < PATTERN_LENGTH implies #[trigger] pattern_bit(
            pattern_prefix(mask, beat, offsets),
            (PATTERN_LENGTH - 1 - offset) as u64,
        ) == false by {
            lemma_zero_word((PATTERN_LENGTH - 1 - offset) as u64);
        }
    } else {
        let last = (offsets - 1) as u64;
        let rest = pattern_prefix(mask, beat, last);
        lemma_pattern_prefix_bits(mask, beat, last);
        lemma_set_bit(rest, (PATTERN_LENGTH - 1 - last) as u64);
        assert forall|offset: u64| offset < PATTERN_LENGTH implies #[trigger] pattern_bit(
            pattern_prefix(mask, beat, offsets),
            (PATTERN_LENGTH - 1 - offset) as u64,
        ) == (offset < offsets && edge(mask, beat_after(beat, offset))) by {
            let bit = (PATTERN_LENGTH - 1 - offset) as u64;
            assert(pattern_bit(rest, bit) == (offset < last && edge(
                mask,
                beat_after(beat, offset),
            )));
            assert(bit < 32);
        }
    }
}

/// Every bit of a pattern word is the edge of its beat.
pub proof fn lemma_pattern_word_bits(mask: u16, beat: u64, offset: u64)
    requires
        offset < PATTERN_LENGTH,
    ensures
        pattern_bit(pattern_word(mask, beat), (PATTERN_LENGTH - 1 - offset) as u64) == edge(
            mask,
            beat_after(beat, offset),
        ),
{
    lemma_pattern_prefix_bits(mask, beat, PATTERN_LENGTH);
}

/// The pattern word of a channel at `beat`, recomputed from the triggered
/// mask and the beat alone.
pub fn pattern(triggered: u16, beat: u64) -> (word: u32)
    ensures
        word == pattern_word(triggered, beat),
        forall|offset: u64|
            offset < PATTERN_LENGTH ==> #[trigger] pattern_bit(
                word,
                (PATTERN_LENGTH - 1 - offset) as u64,
            ) == edge(triggered, beat_after(beat, offset)),
        triggered == 0 ==> word == 0,
{
    let mut word: u32 = 0;
    let mut offset: u64 = 0;
    while offset < PATTERN_LENGTH
        invariant
            offset <= PATTERN_LENGTH,
            word == pattern_prefix(triggered, beat, offset),
        decreases PATTERN_LENGTH - offset,
    {
        if get_beat(triggered, add_beats(beat, offset)) {
            word |= 1u32 << (PATTERN_LENGTH - 1 - offset);
        }
        offset += 1;
    }
    proof {
        lemma_pattern_prefix_bits(triggered, beat, PATTERN_LENGTH);
        lemma_silent_pattern(beat);
    }
    word
}

/// No slot of the empty mask is set.
proof fn lemma_empty_mask(slot: u64)
    by (bit_vector)
    ensures
        (0u16 >> slot) & 1 == 0,
{
}

/// The combined wave of the empty mask is low on every beat.
pub proof fn lemma_silent_wave(beat: u64, slots: u64)
    ensures
        !wave_below(0, beat, slots),
    decreases slots,
{
    if slots > 0 {
        lemma_silent_wave(beat, (slots - 1) as u64);
        lemma_empty_mask((slots - 1) as u64);
    }
}

/// A channel with no triggered note slot fires on no beat.
pub proof fn lemma_silent_mask_never_fires(beat: u64)
    ensures
        !edge(0, beat),
{
    lemma_silent_wave(beat, 12);
    lemma_silent_wave(previous_beat(beat), 12);
}

/// A pattern prefix of a channel with no triggered note slot is empty.
proof fn lemma_silent_prefix(beat: u64, offsets: u64)
    ensures
        pattern_prefix(0, beat, offsets) == 0,
    decreases offsets,
{
    if offsets > 0 {
        lemma_silent_prefix(beat, (offsets - 1) as u64);
        lemma_silent_mask_never_fires(beat_after(beat, (offsets - 1) as u64));
    }
}

/// A channel with no triggered note slot has the empty pattern at every
/// beat.
pub proof fn lemma_silent_pattern(beat: u64)
    ensures
        pattern_word(0, beat) == 0,
{
    lemma_silent_prefix(beat, PATTERN_LENGTH);
}

/// Of the mask 1, slot 0 is set and no other.
proof fn lemma_first_slot_mask(slot: u64)
    by (bit_vector)
    ensures
        ((1u16 >> slot) & 1 == 1) == (slot == 0),
{
}

/// With only the first note slot triggered, the combined wave is high
/// exactly on the even beats.
pub proof fn lemma_first_slot_wave(beat: u64, slots: u64)
    ensures
        wave_below(1, beat, slots) == (slots > 0 && beat % 2 == 0),
    decreases slots,
{
    if slots > 0 {
        lemma_first_slot_wave(beat, (slots - 1) as u64);
        lemma_first_slot_mask((slots - 1) as u64);
        assert(slot_high(0, beat) == (beat % 2 == 0)) by {
            assert(beat / 1 == beat);
        }
    }
}

/// With only the first note slot triggered, whose wave toggles every beat,
/// the channel fires on every beat.
pub proof fn lemma_first_slot_fires_every_beat(beat: u64)
    ensures
        edge(1, beat),
{
    lemma_first_slot_wave(beat, 12);
    lemma_first_slot_wave(previous_beat(beat), 12);
}

} // verus!
