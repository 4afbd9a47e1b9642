//! What the control surface does to the words that it sets: the locked note
//! slots of a channel and the mute bits.
use vstd::prelude::*;
use crate::pattern::slot_set;
use crate::{NOTES_PER_CHANNEL, NUM_CHANNELS};
use super::voice::{channel_muted, lemma_with_slot, lemma_without_slot, with_slot, without_slot};

verus! {

/// The mute word `muted` with the bit of `channel` set.
pub open spec fn with_mute(muted: u64, channel: int) -> u64 {
    muted | (1u64 << (channel as u64))
}

/// The mute word `muted` with the bit of `channel` cleared.
pub open spec fn without_mute(muted: u64, channel: int) -> u64 {
    muted & !(1u64 << (channel as u64))
}

/// Muting a channel sets its bit of the mute word and leaves the others.
proof fn lemma_with_mute(muted: u64, channel: u64, other: u64)
    by (bit_vector)
    requires
        channel < 64,
        other < 64,
    ensures
        (((muted | (1u64 << channel)) >> other) & 1 == 1) == (other == channel || (muted >> other)
            & 1 == 1),
{
}

/// Unmuting a channel clears its bit of the mute word and leaves the
/// others.
proof fn lemma_without_mute(muted: u64, channel: u64, other: u64)
    by (bit_vector)
    requires
        channel < 64,
        other < 64,
    ensures
        (((muted & !(1u64 << channel)) >> other) & 1 == 1) == (other != channel && (muted >> other)
            & 1 == 1),
{
}

/// Of the mute word after `channel` was muted, the bit of `channel` is set
/// and every other bit is as it was.
pub proof fn lemma_mute_bits(muted: u64, channel: int, other: int)
    requires
        0 <= channel < NUM_CHANNELS,
        0 <= other < NUM_CHANNELS,
    ensures
        channel_muted(with_mute(muted, channel), other) == (other == channel || channel_muted(
            muted,
            other,
        )),
        channel_muted(without_mute(muted, channel), other) == (other != channel && channel_muted(
            muted,
            other,
        )),
{
    lemma_with_mute(muted, channel as u64, other as u64);
    lemma_without_mute(muted, channel as u64, other as u64);
}

/// The mute word with the bit of `channel` set or cleared.
pub fn set_muted(muted: u64, channel: usize, on: bool) -> (word: u64)
    requires
        channel < NUM_CHANNELS,
    ensures
        word == (if on {
            with_mute(muted, channel as int)
        } else {
            without_mute(muted, channel as int)
        }),
        forall|other: int|
            0 <= other < NUM_CHANNELS ==> #[trigger] channel_muted(word, other) == (if other
                == channel {
                on
            } else {
                channel_muted(muted, other)
            }),
{
    let bit: u64 = 1u64 << (channel as u64);
    let word = if on {
        muted | bit
    } else {
        muted & !bit
    };
    proof {
        assert forall|other: int| 0 <= other < NUM_CHANNELS implies #[trigger] channel_muted(
            word,
            other,
        ) == (if other == channel {
            on
        } else {
            channel_muted(muted, other)
        }) by {
            lemma_with_mute(muted, channel as u64, other as u64);
            lemma_without_mute(muted, channel as u64, other as u64);
        }
    }
    word
}

/// The mask with note slot `slot` set or cleared.
pub fn set_slot(mask: u16, slot: u64, on: bool) -> (word: u16)
    requires
        slot < NOTES_PER_CHANNEL,
    ensures
        word == (if on {
            with_slot(mask, slot)
        } else {
            without_slot(mask, slot)
        }),
        forall|other: u64|
            other < NOTES_PER_CHANNEL ==> #[trigger] slot_set(word, other) == (if other == slot {
                on
            } else {
                slot_set(mask, other)
            }),
{
    let bit: u16 = 1u16 << slot;
    let word = if on {
        mask | bit
    } else {
        mask & !bit
    };
    proof {
        assert forall|other: u64| other < NOTES_PER_CHANNEL implies #[trigger] slot_set(
            word,
            other,
        ) == (if other == slot {
            on
        } else {
            slot_set(mask, other)
        }) by {
            lemma_with_slot(mask, slot, other);
            lemma_without_slot(mask, slot, other);
        }
    }
    word
}

/// A note slot is set in the union of two masks where it is set in one of
/// them.
proof fn lemma_union(locked: u16, held: u16, slot: u64)
    by (bit_vector)
    requires
        slot < 16,
    ensures
        slot_set(locked | held, slot) == (slot_set(locked, slot) || slot_set(held, slot)),
{
}

/// The locked note slots once the held ones have been locked too.
pub fn lock_held(locked: u16, held: u16) -> (word: u16)
    ensures
        word == locked | held,
        forall|slot: u64|
            slot < NOTES_PER_CHANNEL ==> #[trigger] slot_set(word, slot) == (slot_set(locked, slot)
                || slot_set(held, slot)),
{
    proof {
        assert forall|slot: u64| slot < NOTES_PER_CHANNEL implies #[trigger] slot_set(
            locked | held,
            slot,
        ) == (slot_set(locked, slot) || slot_set(held, slot)) by {
            lemma_union(locked, held, slot);
        }
    }
    locked | held
}

} // verus!
