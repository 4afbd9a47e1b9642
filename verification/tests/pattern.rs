use drumchords::pattern::{add_beats, get_beat, pattern, wave_at};
use drumchords::{NOTES_PER_CHANNEL, NUM_CHANNELS, PATTERN_LENGTH};

#[test]
fn constants() {
    assert_eq!(NUM_CHANNELS, 11);
    assert_eq!(PATTERN_LENGTH, 32);
    assert_eq!(NOTES_PER_CHANNEL, 12);
}

#[test]
fn silent_mask_gives_empty_pattern() {
    for beat in [0u64, 1, 2, 31, 32, 1000, 123_456_789, u64::MAX - 32, u64::MAX - 5, u64::MAX] {
        assert_eq!(pattern(0, beat), 0);
        assert!(!get_beat(0, beat));
    }
}

#[test]
fn first_slot_fires_on_every_beat() {
    for beat in 0..4u64 {
        assert!(get_beat(1, beat));
    }
    for beat in [0u64, 1, 7, 1000, u64::MAX - 32, u64::MAX - 1, u64::MAX] {
        assert_eq!(pattern(1, beat), 0xFFFF_FFFF);
    }
}

#[test]
fn first_slot_wave_alternates() {
    assert!(wave_at(1, 0));
    assert!(!wave_at(1, 1));
    assert!(wave_at(1, 2));
    assert!(!wave_at(1, 3));
}

#[test]
fn second_slot_fires_on_every_other_beat() {
    let fires: Vec<bool> = (0..8u64).map(|beat| get_beat(0b10, beat)).collect();
    assert_eq!(fires, vec![true, false, true, false, true, false, true, false]);
    assert_eq!(pattern(0b10, 0), 0xAAAA_AAAA);
    assert_eq!(pattern(0b10, 7), 0x5555_5555);
}

#[test]
fn third_slot_fires_on_every_third_beat() {
    assert_eq!(pattern(0b100, 0), 0x9249_2492);
    assert_eq!(pattern(0b100, 7), 0x2492_4924);
    assert_eq!(pattern(0b100, 1000), 0x2492_4924);
}

#[test]
fn two_slots_cancel_where_both_toggle() {
    let fires: Vec<u8> = (0..8u64).map(|beat| get_beat(0b11, beat) as u8).collect();
    assert_eq!(fires, vec![0, 1, 0, 1, 0, 1, 0, 1]);
    assert_eq!(pattern(0b11, 0), 0x5555_5555);
    assert_eq!(pattern(0b101, 0), 0x6DB6_DB6D);
    assert_eq!(pattern(0b1001, 7), 0xBBBB_BBBB);
}

#[test]
fn all_slots_pattern() {
    assert_eq!(pattern(0xFFF, 0), 0x4847_7F95);
    assert_eq!(pattern(0xFFF, 7), 0x23BF_CAAE);
    assert_eq!(pattern(0xFFF, 1000), 0x5DC5_573D);
}

#[test]
fn slots_above_the_octave_are_ignored() {
    assert_eq!(pattern(0xF000, 0), 0);
    assert_eq!(pattern(0xF001, 5), 0xFFFF_FFFF);
}

#[test]
fn beat_zero_looks_back_at_the_last_beat_of_the_counter() {
    // The wave of slot 5 is high on beat 0 and on beat u64::MAX, so nothing
    // changes between them.
    assert!(wave_at(1 << 5, 0));
    assert!(wave_at(1 << 5, u64::MAX));
    assert!(!get_beat(1 << 5, 0));
    assert_eq!(pattern(1 << 5, 0), 0x0208_2082);
    // The wave of slot 2 is low on beat u64::MAX and high on beat 0.
    assert!(!wave_at(1 << 2, u64::MAX));
    assert!(get_beat(1 << 2, 0));
}

#[test]
fn pattern_is_a_function_of_mask_and_beat() {
    for mask in [0u16, 1, 0b1010, 0xFFF] {
        for beat in [0u64, 3, 99] {
            assert_eq!(pattern(mask, beat), pattern(mask, beat));
            assert_eq!(get_beat(mask, beat), get_beat(mask, beat));
        }
    }
}

#[test]
fn pattern_bits_are_the_beats_ahead() {
    for mask in [0b110u16, 0xABC] {
        for beat in [0u64, 17, 4096] {
            let word = pattern(mask, beat);
            for offset in 0..PATTERN_LENGTH {
                let bit = (word >> (PATTERN_LENGTH - 1 - offset)) & 1 == 1;
                assert_eq!(bit, get_beat(mask, beat + offset));
            }
        }
    }
}

#[test]
fn beat_counter_wraps() {
    assert_eq!(add_beats(0, 0), 0);
    assert_eq!(add_beats(5, 31), 36);
    assert_eq!(add_beats(u64::MAX - 31, 31), u64::MAX);
    assert_eq!(add_beats(u64::MAX, 1), 0);
    assert_eq!(add_beats(u64::MAX - 1, 31), 29);
    assert_eq!(add_beats(u64::MAX, u64::MAX), u64::MAX - 1);
}

#[test]
fn pattern_looks_ahead_across_the_wrap_of_the_counter() {
    assert_eq!(pattern(0b10, u64::MAX), 0x5555_5555);
    assert_eq!(pattern(0b10, u64::MAX - 1), 0xAAAA_AAAA);
    assert_eq!(pattern(0b100, u64::MAX), 0xC924_9249);
    assert_eq!(pattern(0b100, u64::MAX - 30), 0x9249_2493);
    assert_eq!(pattern(0xFFF, u64::MAX), 0xA423_BFCA);
    assert_eq!(pattern(1 << 5, u64::MAX - 1), 0x0082_0820);
    let word = pattern(0xABC, u64::MAX - 3);
    for offset in 0..32u64 {
        let bit = (word >> (31 - offset)) & 1 == 1;
        assert_eq!(bit, get_beat(0xABC, (u64::MAX - 3).wrapping_add(offset)));
    }
}
