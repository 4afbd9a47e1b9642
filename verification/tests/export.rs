use drumchords::pattern::get_beat;
use drumchords::synth::export::{
    finish_export, key_of_channel, EXPORT_BEATS, EXPORT_VELOCITY, TICKS_PER_BEAT,
};
use drumchords::synth::midi_writer::Message;
use drumchords::synth::smf::{TrackItem, TrackItemKind};
use drumchords::synth::{Config, ExportError};
use drumchords::NUM_CHANNELS;

fn tempo(us_per_beat: u32) -> TrackItem {
    TrackItem { delta: 0, kind: TrackItemKind::Tempo { us_per_beat } }
}

fn end() -> TrackItem {
    TrackItem { delta: 0, kind: TrackItemKind::EndOfTrack }
}

fn note(delta: u32, message: Message) -> TrackItem {
    TrackItem { delta, kind: TrackItemKind::Midi { channel: 0, message } }
}

/// The note events of a track with their absolute ticks.
fn absolute(track: &[TrackItem]) -> Vec<(u64, Message)> {
    let mut tick = 0u64;
    let mut notes = Vec::new();
    for item in track {
        tick += item.delta as u64;
        if let TrackItemKind::Midi { message, .. } = item.kind {
            notes.push((tick, message));
        }
    }
    notes
}

#[test]
fn export_constants() {
    assert_eq!(TICKS_PER_BEAT, 4);
    assert_eq!(EXPORT_BEATS, 1024);
    assert_eq!(EXPORT_VELOCITY, 127);
}

#[test]
fn channel_keys() {
    let keys: Vec<u8> = (0..NUM_CHANNELS).map(key_of_channel).collect();
    assert_eq!(keys, vec![60, 62, 64, 65, 67, 69, 71, 72, 74, 76, 77]);
}

#[test]
fn silent_export_holds_tempo_and_end_only() {
    let config = Config::new();
    assert_eq!(config.export_events().len(), 0);
    assert_eq!(config.export_track_items(), Ok(vec![tempo(500_000), end()]));
}

#[test]
fn silent_export_file() {
    let config = Config::new();
    let bytes = config.generate_midi().unwrap();
    let expected: Vec<u8> = vec![
        b'M', b'T', b'h', b'd', 0, 0, 0, 6, 0, 0, 0, 1, 0, 4, // header
        b'M', b'T', b'r', b'k', 0, 0, 0, 11, // track of 11 bytes
        0x00, 0xFF, 0x51, 0x03, 0x07, 0xA1, 0x20, // tempo: 500000 us
        0x00, 0xFF, 0x2F, 0x00, // end of track
    ];
    assert_eq!(bytes, expected);
}

#[test]
fn export_file_parses_back() {
    let mut config = Config::new();
    config.params.bpm = 90;
    config.selected[0] = 0b100;
    config.params.locked[10] = 0b1;
    let items = config.export_track_items().unwrap();
    let bytes = config.generate_midi().unwrap();
    let file = midly::Smf::parse(&bytes).unwrap();
    assert_eq!(file.header.format, midly::Format::SingleTrack);
    assert_eq!(file.header.timing, midly::Timing::Metrical(midly::num::u15::new(4)));
    assert_eq!(file.tracks.len(), 1);
    let track = &file.tracks[0];
    assert_eq!(track.len(), items.len());
    for (event, item) in track.iter().zip(items.iter()) {
        assert_eq!(event.delta.as_int(), item.delta);
        let kind = match event.kind {
            midly::TrackEventKind::Meta(midly::MetaMessage::Tempo(us)) => {
                TrackItemKind::Tempo { us_per_beat: us.as_int() }
            }
            midly::TrackEventKind::Meta(midly::MetaMessage::EndOfTrack) => {
                TrackItemKind::EndOfTrack
            }
            midly::TrackEventKind::Midi {
                channel,
                message: midly::MidiMessage::NoteOn { key, vel },
            } => TrackItemKind::Midi {
                channel: channel.as_int(),
                message: Message::NoteOn { key: key.as_int(), vel: vel.as_int() },
            },
            midly::TrackEventKind::Midi {
                channel,
                message: midly::MidiMessage::NoteOff { key, vel },
            } => TrackItemKind::Midi {
                channel: channel.as_int(),
                message: Message::NoteOff { key: key.as_int(), vel: vel.as_int() },
            },
            _ => panic!("unexpected event"),
        };
        assert_eq!(kind, item.kind);
    }
}

#[test]
fn export_of_one_slot() {
    // Slot 1 toggles every two beats: the channel fires on every even beat.
    let mut config = Config::new();
    config.selected[0] = 0b10;
    let items = config.export_track_items().unwrap();
    assert_eq!(items.len(), 2 + 1024);
    assert_eq!(items[0], tempo(500_000));
    assert_eq!(items[1], note(0, Message::NoteOn { key: 60, vel: 127 }));
    assert_eq!(items[2], note(1, Message::NoteOff { key: 60, vel: 127 }));
    assert_eq!(items[3], note(1, Message::NoteOn { key: 60, vel: 127 }));
    assert_eq!(items[4], note(1, Message::NoteOff { key: 60, vel: 127 }));
    assert_eq!(items[1024], note(1, Message::NoteOff { key: 60, vel: 127 }));
    assert_eq!(items[1025], end());
}

#[test]
fn export_emits_releases_before_strikes() {
    // Slot 0 fires on every beat, so every tick but the first and the last
    // holds releases and strikes.
    let mut config = Config::new();
    config.selected[2] = 0b1;
    config.params.locked[5] = 0b1;
    let items = config.export_track_items().unwrap();
    assert_eq!(items.len(), 2 + 4 * 1024);
    assert_eq!(
        &items[1..7],
        &[
            note(0, Message::NoteOn { key: 69, vel: 127 }),
            note(0, Message::NoteOn { key: 64, vel: 127 }),
            note(1, Message::NoteOff { key: 69, vel: 127 }),
            note(0, Message::NoteOff { key: 64, vel: 127 }),
            note(0, Message::NoteOn { key: 69, vel: 127 }),
            note(0, Message::NoteOn { key: 64, vel: 127 }),
        ]
    );
    let notes = absolute(&items);
    for pair in notes.windows(2) {
        assert!(pair[0].0 <= pair[1].0);
        if pair[0].0 == pair[1].0 {
            assert!(!(!pair[0].1.is_note_off() && pair[1].1.is_note_off()));
        }
    }
}

#[test]
fn export_strikes_are_the_beats_that_fire() {
    let mut config = Config::new();
    config.selected[3] = 0b0101_0000_0110;
    config.params.locked[3] = 0b1000_0000_0001;
    config.selected[7] = 0b11;
    let items = config.export_track_items().unwrap();
    let notes = absolute(&items);
    for (channel, mask) in [(3usize, 0b1101_0000_0111u16), (7, 0b11)] {
        let key = key_of_channel(channel);
        let strikes: Vec<u64> = notes
            .iter()
            .filter(|(_, message)| *message == Message::NoteOn { key, vel: 127 })
            .map(|(tick, _)| *tick)
            .collect();
        let releases: Vec<u64> = notes
            .iter()
            .filter(|(_, message)| *message == Message::NoteOff { key, vel: 127 })
            .map(|(tick, _)| *tick)
            .collect();
        let fires: Vec<u64> = (0..EXPORT_BEATS).filter(|beat| get_beat(mask, *beat)).collect();
        assert_eq!(strikes, fires);
        assert_eq!(releases, fires.iter().map(|beat| beat + 1).collect::<Vec<u64>>());
        for beat in 0..EXPORT_BEATS {
            assert_eq!(config.get_beat(channel, beat), get_beat(mask, beat));
        }
    }
}

#[test]
fn export_of_every_channel_on_every_beat() {
    let mut config = Config::new();
    for channel in 0..NUM_CHANNELS {
        config.params.locked[channel] = 1;
    }
    let writer = config.export_events();
    assert_eq!(writer.len(), 2 * 11 * 1024);
    let items = config.export_track_items().unwrap();
    assert_eq!(items.len(), 2 + 2 * 11 * 1024);
    // On tick 1 the releases come first, from the highest key down, then
    // the strikes, from the highest key down.
    let tick_one: Vec<TrackItem> = items[12..34].to_vec();
    let keys = [77u8, 76, 74, 72, 71, 69, 67, 65, 64, 62, 60];
    for (i, key) in keys.iter().enumerate() {
        let delta = if i == 0 { 1 } else { 0 };
        assert_eq!(tick_one[i], note(delta, Message::NoteOff { key: *key, vel: 127 }));
        assert_eq!(tick_one[11 + i], note(0, Message::NoteOn { key: *key, vel: 127 }));
    }
}

#[test]
fn export_is_idempotent() {
    let mut config = Config::new();
    config.selected[1] = 0b1010_1010_1010;
    config.params.locked[9] = 0b0000_1000_0001;
    config.params.bpm = 133;
    let first = config.generate_midi().unwrap();
    let second = config.generate_midi().unwrap();
    assert_eq!(first, second);
    assert_eq!(config.export_track_items(), config.export_track_items());
}

#[test]
fn export_ignores_what_does_not_sound_in_the_file() {
    let mut config = Config::new();
    config.selected[4] = 0b110;
    let first = config.generate_midi().unwrap();
    config.params.muted = 0b1_0000;
    config.params.playing = false;
    config.feedback.channels[4].pattern = 77;
    assert_eq!(config.generate_midi().unwrap(), first);
}

#[test]
fn tempo_formula() {
    let mut config = Config::new();
    for (bpm, us) in [(120u32, 500_000u32), (60, 1_000_000), (4, 15_000_000), (7, 8_571_428), (1000, 60_000)] {
        config.params.bpm = bpm;
        assert_eq!(config.export_track_items().unwrap()[0], tempo(us));
    }
    config.params.bpm = u32::MAX;
    assert_eq!(config.export_track_items().unwrap()[0], tempo(0));
}

#[test]
fn tempo_out_of_range_is_an_error() {
    let mut config = Config::new();
    for bpm in [0u32, 1, 2, 3] {
        config.params.bpm = bpm;
        assert_eq!(config.export_track_items(), Err(ExportError::TempoOutOfRange));
        assert_eq!(config.generate_midi(), Err(ExportError::TempoOutOfRange));
    }
    config.params.bpm = 4;
    assert!(config.generate_midi().is_ok());
}

#[test]
fn finish_export_maps_a_failed_encoding() {
    assert_eq!(finish_export(None), Err(ExportError::Encoding));
    assert_eq!(finish_export(Some(vec![1, 2, 3])), Ok(vec![1, 2, 3]));
}

#[test]
fn export_succeeds_whenever_the_tempo_fits() {
    let mut config = Config::new();
    for channel in 0..NUM_CHANNELS {
        config.params.locked[channel] = 0xFFF;
        config.selected[channel] = 0x555;
    }
    for bpm in [4u32, 5, 120, 1000, u32::MAX] {
        config.params.bpm = bpm;
        let items = config.export_track_items().unwrap();
        let bytes = config.generate_midi().unwrap();
        let file = midly::Smf::parse(&bytes).unwrap();
        assert_eq!(file.tracks.len(), 1);
        assert_eq!(file.tracks[0].len(), items.len());
    }
}
