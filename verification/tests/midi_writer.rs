use drumchords::synth::midi_writer::{Event, Message, MidiWriter, MAX_DELTA};
use drumchords::synth::smf::{TrackItem, TrackItemKind};
use drumchords::synth::ExportError;
use std::cmp::Ordering;

fn on(tick: u64, channel: u8, key: u8, vel: u8) -> Event {
    Event { tick, channel, message: Message::NoteOn { key, vel } }
}

fn off(tick: u64, channel: u8, key: u8, vel: u8) -> Event {
    Event { tick, channel, message: Message::NoteOff { key, vel } }
}

fn item(delta: u32, event: Event) -> TrackItem {
    TrackItem { delta, kind: TrackItemKind::Midi { channel: event.channel, message: event.message } }
}

#[test]
fn note_off_precedes_note_on_at_equal_tick() {
    let strike = on(5, 0, 60, 127);
    let release = off(5, 0, 60, 127);
    assert!(release.comes_before(&strike));
    assert!(!strike.comes_before(&release));
    assert_eq!(release.cmp(&strike), Ordering::Greater);
    assert_eq!(strike.cmp(&release), Ordering::Less);

    let mut writer = MidiWriter::new();
    writer.add_event(strike);
    writer.add_event(release);
    assert_eq!(writer.flush(), Ok(vec![item(5, release), item(0, strike)]));
}

#[test]
fn note_off_precedes_note_on_whatever_the_channel() {
    let strike = on(5, 0, 60, 127);
    let release = off(5, 9, 10, 1);
    assert!(release.comes_before(&strike));
    let mut writer = MidiWriter::new();
    writer.add_event(strike);
    writer.add_event(release);
    assert_eq!(writer.flush(), Ok(vec![item(5, release), item(0, strike)]));
}

#[test]
fn earlier_tick_comes_first() {
    assert!(on(1, 0, 60, 127).comes_before(&off(2, 0, 60, 127)));
    assert!(!off(2, 0, 60, 127).comes_before(&on(1, 0, 60, 127)));
}

#[test]
fn ties_are_broken_by_channel_key_and_velocity() {
    // lower channel first
    assert!(on(1, 0, 60, 100).comes_before(&on(1, 1, 60, 100)));
    // higher key first
    assert!(on(1, 0, 61, 100).comes_before(&on(1, 0, 60, 100)));
    // higher velocity first
    assert!(on(1, 0, 60, 101).comes_before(&on(1, 0, 60, 100)));
    // channel before key
    assert!(on(1, 0, 10, 100).comes_before(&on(1, 1, 90, 100)));
}

#[test]
fn cmp_of_equal_events() {
    let event = on(3, 1, 64, 90);
    assert_eq!(event.cmp(&event), Ordering::Equal);
    assert_eq!(event.partial_cmp(&event), Some(Ordering::Equal));
    assert!(!event.comes_before(&event));
    assert_eq!(on(1, 0, 60, 1).partial_cmp(&on(2, 0, 60, 1)), Some(Ordering::Greater));
    assert_eq!(on(2, 0, 60, 1).partial_cmp(&on(1, 0, 60, 1)), Some(Ordering::Less));
}

#[test]
fn message_accessors() {
    let strike = Message::NoteOn { key: 60, vel: 100 };
    let release = Message::NoteOff { key: 61, vel: 0 };
    assert!(!strike.is_note_off());
    assert!(release.is_note_off());
    assert_eq!(strike.get_key(), 60);
    assert_eq!(release.get_key(), 61);
    assert_eq!(strike.get_vel(), 100);
    assert_eq!(release.get_vel(), 0);
}

#[test]
fn empty_writer_flushes_nothing() {
    let writer = MidiWriter::new();
    assert_eq!(writer.len(), 0);
    assert_eq!(writer.flush(), Ok(vec![]));
}

#[test]
fn flush_orders_events_and_counts_deltas() {
    let mut writer = MidiWriter::new();
    writer.add_event(on(10, 0, 60, 127));
    writer.add_event(off(11, 0, 60, 127));
    writer.add_event(on(3, 0, 62, 127));
    writer.add_event(off(4, 0, 62, 127));
    writer.add_event(on(10, 0, 64, 127));
    writer.add_event(off(10, 0, 65, 127));
    assert_eq!(writer.len(), 6);
    assert_eq!(
        writer.flush(),
        Ok(vec![
            item(3, on(3, 0, 62, 127)),
            item(1, off(4, 0, 62, 127)),
            item(6, off(10, 0, 65, 127)),
            item(0, on(10, 0, 64, 127)),
            item(0, on(10, 0, 60, 127)),
            item(1, off(11, 0, 60, 127)),
        ])
    );
}

#[test]
fn flush_keeps_equal_events() {
    let mut writer = MidiWriter::new();
    writer.add_event(on(2, 0, 60, 127));
    writer.add_event(on(2, 0, 60, 127));
    assert_eq!(writer.flush(), Ok(vec![item(2, on(2, 0, 60, 127)), item(0, on(2, 0, 60, 127))]));
}

#[test]
fn flush_is_independent_of_insertion_order() {
    let events = [
        on(7, 1, 60, 1),
        off(7, 1, 60, 1),
        on(0, 0, 1, 1),
        off(9, 3, 2, 2),
        on(7, 0, 60, 1),
        off(8, 0, 60, 1),
    ];
    let mut forward = MidiWriter::new();
    for event in events.iter() {
        forward.add_event(*event);
    }
    let mut backward = MidiWriter::new();
    for event in events.iter().rev() {
        backward.add_event(*event);
    }
    assert_eq!(forward.flush(), backward.flush());
}

#[test]
fn largest_delta_fits() {
    let mut writer = MidiWriter::new();
    writer.add_event(on(MAX_DELTA, 0, 60, 127));
    writer.add_event(on(2 * MAX_DELTA, 0, 60, 127));
    assert_eq!(
        writer.flush(),
        Ok(vec![
            item(0x0FFF_FFFF, on(MAX_DELTA, 0, 60, 127)),
            item(0x0FFF_FFFF, on(2 * MAX_DELTA, 0, 60, 127)),
        ])
    );
}

#[test]
fn delta_out_of_range_is_an_error() {
    let mut writer = MidiWriter::new();
    writer.add_event(on(MAX_DELTA + 1, 0, 60, 127));
    assert_eq!(writer.flush(), Err(ExportError::DeltaOutOfRange));

    let mut writer = MidiWriter::new();
    writer.add_event(on(1, 0, 60, 127));
    writer.add_event(on(MAX_DELTA + 2, 0, 60, 127));
    assert_eq!(writer.flush(), Err(ExportError::DeltaOutOfRange));

    let mut writer = MidiWriter::new();
    writer.add_event(on(u64::MAX, 0, 60, 127));
    assert_eq!(writer.flush(), Err(ExportError::DeltaOutOfRange));
}
