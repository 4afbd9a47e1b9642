//! The export of an engine's patterns as a note-event file.
use vstd::prelude::*;
use crate::pattern::{edge, lemma_silent_mask_never_fires};
use crate::NUM_CHANNELS;
use super::midi_writer::{
    deltas_fit, enqueue, lemma_enqueue_contains, lemma_enqueue_holds, lemma_enqueue_sorted,
    lemma_sorted_order, sorted, track_items, Event, Message, MidiWriter, MAX_DELTA,
};
use super::smf::{encode_track, smf_bytes, TrackItem, TrackItemKind, MAX_TRACK_ITEMS};
use super::voice::retriggers;
use super::{Config, ExportError};

verus! {

/// Ticks of the file to the quarter note: a beat of the engine is one tick.
pub const TICKS_PER_BEAT: u16 = 4;

/// Number of beats that an export covers.
pub const EXPORT_BEATS: u64 = 1024;

/// Velocity of every exported note.
pub const EXPORT_VELOCITY: u8 = 127;

/// The key on which `channel` is exported: the white keys from middle C up.
pub open spec fn channel_key(channel: int) -> u8 {
    if channel == 0 {
        60
    } else if channel == 1 {
        62
    } else if channel == 2 {
        64
    } else if channel == 3 {
        65
    } else if channel == 4 {
        67
    } else if channel == 5 {
        69
    } else if channel == 6 {
        71
    } else if channel == 7 {
        72
    } else if channel == 8 {
        74
    } else if channel == 9 {
        76
    } else {
        77
    }
}

/// The key on which `channel` is exported.
pub fn key_of_channel(channel: usize) -> (key: u8)
    requires
        channel < NUM_CHANNELS,
    ensures
        key == channel_key(channel as int),
        key < 128,
{
    match channel {
        0 => 60,
        1 => 62,
        2 => 64,
        3 => 65,
        4 => 67,
        5 => 69,
        6 => 71,
        7 => 72,
        8 => 74,
        9 => 76,
        _ => 77,
    }
}

/// The strike of `channel` on `beat`.
pub open spec fn note_on(beat: u64, channel: int) -> Event {
    Event {
        tick: beat,
        channel: 0,
        message: Message::NoteOn { key: channel_key(channel), vel: EXPORT_VELOCITY },
    }
}

/// The release that ends the strike of `channel` on `beat`, one tick later.
pub open spec fn note_off(beat: u64, channel: int) -> Event {
    Event {
        tick: (beat + 1) as u64,
        channel: 0,
        message: Message::NoteOff { key: channel_key(channel), vel: EXPORT_VELOCITY },
    }
}

/// The queue after the channels below `channels` have been asked for `beat`:
/// each that fires has added its strike and its release to `queue`.
pub open spec fn queue_after_channels(
    masks: Seq<u16>,
    queue: Seq<Event>,
    beat: u64,
    channels: nat,
) -> Seq<Event>
    decreases channels,
{
    if channels == 0 {
        queue
    } else {
        let channel = (channels - 1) as int;
        let before = queue_after_channels(masks, queue, beat, (channels - 1) as nat);
        if edge(masks[channel], beat) {
            enqueue(enqueue(before, note_on(beat, channel)), note_off(beat, channel))
        } else {
            before
        }
    }
}

/// The queue after all channels have been asked for every beat below
/// `beats`.
pub open spec fn queue_after_beats(masks: Seq<u16>, beats: nat) -> Seq<Event>
    decreases beats,
{
    if beats == 0 {
        Seq::empty()
    } else {
        queue_after_channels(
            masks,
            queue_after_beats(masks, (beats - 1) as nat),
            (beats - 1) as u64,
            NUM_CHANNELS as nat,
        )
    }
}

/// The note events of an export, in the order of the track.
pub open spec fn export_queue(masks: Seq<u16>) -> Seq<Event> {
    queue_after_beats(masks, EXPORT_BEATS as nat)
}

/// Whether the tempo `bpm` can be written to a file: it is not zero, and a
/// quarter note lasts no more microseconds than 24 bits hold.
pub open spec fn tempo_fits(bpm: u32) -> bool {
    bpm > 0 && 60_000_000u32 / bpm <= 0x00FF_FFFF
}

/// The event that sets the tempo `bpm` at the start of a track.
pub open spec fn tempo_item(bpm: u32) -> TrackItem {
    TrackItem {
        delta: 0,
        kind: TrackItemKind::Tempo { us_per_beat: 60_000_000u32 / bpm },
    }
}

/// The event that ends a track.
pub open spec fn end_item() -> TrackItem {
    TrackItem { delta: 0, kind: TrackItemKind::EndOfTrack }
}

/// The track of an export: the tempo, the note events in order, the end.
pub open spec fn export_track(masks: Seq<u16>, bpm: u32) -> Seq<TrackItem> {
    seq![tempo_item(bpm)] + track_items(export_queue(masks)) + seq![end_item()]
}

/// Whether no event of `queue` lies after tick `bound`.
pub open spec fn ticks_within(queue: Seq<Event>, bound: int) -> bool {
    forall|i: int| 0 <= i < queue.len() ==> (#[trigger] queue[i]).tick <= bound
}

/// Whether every event of `queue` is valid.
pub open spec fn all_valid(queue: Seq<Event>) -> bool {
    forall|i: int| 0 <= i < queue.len() ==> (#[trigger] queue[i]).wf()
}

/// An event that joins a queue brings no tick beyond the bound that it and
/// the queue keep, and leaves the queue valid if it is valid itself.
pub proof fn lemma_enqueue_within(queue: Seq<Event>, event: Event, bound: int)
    requires
        ticks_within(queue, bound),
        event.tick <= bound,
    ensures
        ticks_within(enqueue(queue, event), bound),
        all_valid(queue) && event.wf() ==> all_valid(enqueue(queue, event)),
{
    lemma_enqueue_holds(queue, event);
    let joined = enqueue(queue, event);
    assert forall|i: int| 0 <= i < joined.len() implies (#[trigger] joined[i]).tick <= bound by {
        if joined[i] != event {
            let k = choose|k: int| 0 <= k < queue.len() && queue[k] == joined[i];
            assert(queue[k].tick <= bound);
        }
    }
    if all_valid(queue) && event.wf() {
        assert forall|i: int| 0 <= i < joined.len() implies (#[trigger] joined[i]).wf() by {
            if joined[i] != event {
                let k = choose|k: int| 0 <= k < queue.len() && queue[k] == joined[i];
                assert(queue[k].wf());
            }
        }
    }
}

/// In a queue in order whose ticks stay within what a delta time can say,
/// every delta time fits.
pub proof fn lemma_deltas_fit(queue: Seq<Event>, bound: int)
    requires
        sorted(queue),
        ticks_within(queue, bound),
        bound <= MAX_DELTA,
    ensures
        deltas_fit(queue),
{
    assert forall|index: int| 0 <= index < queue.len() implies #[trigger] super::midi_writer::delta_at(
        queue,
        index,
    ) <= MAX_DELTA by {
        assert(queue[index].tick <= bound);
        if index > 0 {
            assert(!queue[index].precedes(queue[index - 1]));
        }
    }
}

/// The queue of one beat is in order, valid and within the beat's release
/// tick, where the queue before the beat was so.
pub proof fn lemma_queue_after_channels(
    masks: Seq<u16>,
    queue: Seq<Event>,
    beat: u64,
    channels: nat,
)
    requires
        sorted(queue),
        all_valid(queue),
        ticks_within(queue, beat + 1),
        beat < u64::MAX,
        channels <= NUM_CHANNELS,
    ensures
        sorted(queue_after_channels(masks, queue, beat, channels)),
        all_valid(queue_after_channels(masks, queue, beat, channels)),
        ticks_within(queue_after_channels(masks, queue, beat, channels), beat + 1),
    decreases channels,
{
    if channels > 0 {
        let channel = (channels - 1) as int;
        let before = queue_after_channels(masks, queue, beat, (channels - 1) as nat);
        lemma_queue_after_channels(masks, queue, beat, (channels - 1) as nat);
        if edge(masks[channel], beat) {
            let on = note_on(beat, channel);
            let off = note_off(beat, channel);
            lemma_enqueue_sorted(before, on);
            lemma_enqueue_within(before, on, beat + 1);
            lemma_enqueue_sorted(enqueue(before, on), off);
            lemma_enqueue_within(enqueue(before, on), off, beat + 1);
        }
    }
}

/// The queue of an export is in order and valid, and none of its ticks lies
/// after the last beat's release.
pub proof fn lemma_queue_after_beats(masks: Seq<u16>, beats: nat)
    requires
        beats < u64::MAX,
    ensures
        sorted(queue_after_beats(masks, beats)),
        all_valid(queue_after_beats(masks, beats)),
        ticks_within(queue_after_beats(masks, beats), beats as int),
    decreases beats,
{
    if beats > 0 {
        let before = queue_after_beats(masks, (beats - 1) as nat);
        lemma_queue_after_beats(masks, (beats - 1) as nat);
        assert(ticks_within(before, beats as int)) by {
            assert forall|i: int| 0 <= i < before.len() implies (#[trigger] before[i]).tick
                <= beats by {
                assert(before[i].tick <= beats - 1);
            }
        }
        lemma_queue_after_channels(masks, before, (beats - 1) as u64, NUM_CHANNELS as nat);
    }
}

/// Whether `file` is the export of `config`: the encoding of its track, or
/// the tempo error where the tempo cannot be written.
pub open spec fn is_export_of(config: Config, file: Result<Vec<u8>, ExportError>) -> bool {
    match file {
        Ok(bytes) => tempo_fits(config.params.bpm) && bytes@ == smf_bytes(
            TICKS_PER_BEAT,
            export_track(config.triggered_masks(), config.params.bpm),
        ),
        Err(error) => !tempo_fits(config.params.bpm) && error == ExportError::TempoOutOfRange,
    }
}

/// Export is repeatable: two exports of states with the same triggered
/// masks and the same tempo give the same bytes, or fail alike.
pub proof fn lemma_export_repeats(
    first: Config,
    second: Config,
    first_file: Result<Vec<u8>, ExportError>,
    second_file: Result<Vec<u8>, ExportError>,
)
    requires
        first.triggered_masks() == second.triggered_masks(),
        first.params.bpm == second.params.bpm,
        is_export_of(first, first_file),
        is_export_of(second, second_file),
    ensures
        match (first_file, second_file) {
            (Ok(first_bytes), Ok(second_bytes)) => first_bytes@ == second_bytes@,
            (Err(first_error), Err(second_error)) => first_error == second_error,
            _ => false,
        },
{
}

/// The number of channels below `channels` that fire on `beat`.
pub open spec fn strikes_on(masks: Seq<u16>, beat: u64, channels: nat) -> nat
    decreases channels,
{
    if channels == 0 {
        0
    } else {
        strikes_on(masks, beat, (channels - 1) as nat) + if edge(masks[channels - 1], beat) {
            1nat
        } else {
            0nat
        }
    }
}

/// The number of strikes on the beats below `beats`, over all channels.
pub open spec fn strikes_before(masks: Seq<u16>, beats: nat) -> nat
    decreases beats,
{
    if beats == 0 {
        0
    } else {
        strikes_before(masks, (beats - 1) as nat) + strikes_on(
            masks,
            (beats - 1) as u64,
            NUM_CHANNELS as nat,
        )
    }
}

/// A beat adds to the queue two events for each channel that fires on it.
pub proof fn lemma_queue_after_channels_len(
    masks: Seq<u16>,
    queue: Seq<Event>,
    beat: u64,
    channels: nat,
)
    ensures
        queue_after_channels(masks, queue, beat, channels).len() == queue.len() + 2 * strikes_on(
            masks,
            beat,
            channels,
        ),
        strikes_on(masks, beat, channels) <= channels,
    decreases channels,
{
    if channels > 0 {
        let channel = (channels - 1) as int;
        let before = queue_after_channels(masks, queue, beat, (channels - 1) as nat);
        lemma_queue_after_channels_len(masks, queue, beat, (channels - 1) as nat);
        if edge(masks[channel], beat) {
            lemma_enqueue_holds(before, note_on(beat, channel));
            lemma_enqueue_holds(enqueue(before, note_on(beat, channel)), note_off(beat, channel));
        }
    }
}

/// The queue holds two events for each strike.
pub proof fn lemma_queue_after_beats_len(masks: Seq<u16>, beats: nat)
    ensures
        queue_after_beats(masks, beats).len() == 2 * strikes_before(masks, beats),
        strikes_before(masks, beats) <= NUM_CHANNELS * beats,
    decreases beats,
{
    if beats > 0 {
        lemma_queue_after_beats_len(masks, (beats - 1) as nat);
        lemma_queue_after_channels_len(
            masks,
            queue_after_beats(masks, (beats - 1) as nat),
            (beats - 1) as u64,
            NUM_CHANNELS as nat,
        );
    }
}

/// An export holds a strike and a release for each beat on which a channel
/// fires, so at most two events for each channel and beat; its track holds
/// two events more.
pub proof fn lemma_export_length(masks: Seq<u16>, bpm: u32)
    ensures
        export_queue(masks).len() == 2 * strikes_before(masks, EXPORT_BEATS as nat),
        export_queue(masks).len() <= 2 * NUM_CHANNELS * EXPORT_BEATS,
        export_track(masks, bpm).len() == export_queue(masks).len() + 2,
{
    lemma_queue_after_beats_len(masks, EXPORT_BEATS as nat);
}

/// What an export returns once the file has been encoded, or has not.
pub fn finish_export(encoded: Option<Vec<u8>>) -> (file: Result<Vec<u8>, ExportError>)
    ensures
        match encoded {
            Some(bytes) => file == Ok::<Vec<u8>, ExportError>(bytes),
            None => file == Err::<Vec<u8>, ExportError>(ExportError::Encoding),
        },
{
    match encoded {
        Some(bytes) => Ok(bytes),
        None => Err(ExportError::Encoding),
    }
}

impl Config {
    /// Asks every channel for each of the first `EXPORT_BEATS` beats and
    /// collects a strike and a release, one tick later, for each beat on
    /// which a channel fires.
    pub fn export_events(&self) -> (writer: MidiWriter)
        ensures
            writer.wf(),
            writer@ == export_queue(self.triggered_masks()),
    {
        let ghost masks = self.triggered_masks();
        let mut writer = MidiWriter::new();
        let mut beat: u64 = 0;
        while beat < EXPORT_BEATS
            invariant
                beat <= EXPORT_BEATS,
                masks == self.triggered_masks(),
                writer.wf(),
                writer@ == queue_after_beats(masks, beat as nat),
            decreases EXPORT_BEATS - beat,
        {
            let ghost start = writer@;
            let mut channel: usize = 0;
            while channel < NUM_CHANNELS
                invariant
                    channel <= NUM_CHANNELS,
                    beat < EXPORT_BEATS,
                    masks == self.triggered_masks(),
                    writer.wf(),
                    writer@ == queue_after_channels(masks, start, beat, channel as nat),
                decreases NUM_CHANNELS - channel,
            {
                if self.get_beat(channel, beat) {
                    let key = key_of_channel(channel);
                    writer.add_event(
                        Event {
                            tick: beat,
                            channel: 0,
                            message: Message::NoteOn { key, vel: EXPORT_VELOCITY },
                        },
                    );
                    writer.add_event(
                        Event {
                            tick: beat + 1,
                            channel: 0,
                            message: Message::NoteOff { key, vel: EXPORT_VELOCITY },
                        },
                    );
                }
                channel += 1;
            }
            beat += 1;
        }
        writer
    }

    /// The track of an export: the tempo, then the note events of
    /// `export_events` in the order of a track, then the end. Fails where
    /// the tempo cannot be written.
    pub fn export_track_items(&self) -> (track: Result<Vec<TrackItem>, ExportError>)
        ensures
            match track {
                Ok(items) => tempo_fits(self.params.bpm) && items@ == export_track(
                    self.triggered_masks(),
                    self.params.bpm,
                ),
                Err(error) => !tempo_fits(self.params.bpm) && error == ExportError::TempoOutOfRange,
            },
    {
        let bpm = self.params.bpm;
        if bpm == 0 || 60_000_000u32 / bpm > 0x00FF_FFFF {
            return Err(ExportError::TempoOutOfRange);
        }
        let writer = self.export_events();
        proof {
            lemma_queue_after_beats(self.triggered_masks(), EXPORT_BEATS as nat);
            lemma_deltas_fit(writer@, EXPORT_BEATS as int);
        }
        let mut track: Vec<TrackItem> = Vec::new();
        track.push(
            TrackItem { delta: 0, kind: TrackItemKind::Tempo { us_per_beat: 60_000_000u32 / bpm } },
        );
        match writer.flush() {
            Ok(mut notes) => {
                track.append(&mut notes);
                track.push(TrackItem { delta: 0, kind: TrackItemKind::EndOfTrack });
                assert(track@ =~= export_track(self.triggered_masks(), self.params.bpm));
                Ok(track)
            },
            Err(error) => Err(error),
        }
    }

    /// The note-event file of the first `EXPORT_BEATS` beats: one track that
    /// sets the tempo, plays every channel's pattern on its key and ends.
    /// Fails where the tempo cannot be written, and nowhere else.
    pub fn generate_midi(&self) -> (file: Result<Vec<u8>, ExportError>)
        ensures
            is_export_of(*self, file),
    {
        match self.export_track_items() {
            Ok(track) => {
                proof {
                    lemma_export_track_valid(self.triggered_masks(), self.params.bpm);
                    lemma_export_length(self.triggered_masks(), self.params.bpm);
                }
                finish_export(encode_track(TICKS_PER_BEAT, &track))
            },
            Err(error) => Err(error),
        }
    }
}

/// Every event of an export's track fits in the bits that a file gives it.
pub proof fn lemma_export_track_valid(masks: Seq<u16>, bpm: u32)
    requires
        tempo_fits(bpm),
    ensures
        forall|i: int|
            0 <= i < export_track(masks, bpm).len() ==> (#[trigger] export_track(masks, bpm)[i]).wf(),
{
    let queue = export_queue(masks);
    lemma_queue_after_beats(masks, EXPORT_BEATS as nat);
    lemma_deltas_fit(queue, EXPORT_BEATS as int);
    let track = export_track(masks, bpm);
    assert forall|i: int| 0 <= i < track.len() implies (#[trigger] track[i]).wf() by {
        let notes = track_items(queue);
        assert(track.len() == notes.len() + 2);
        if i == 0 {
            assert(track[i] == tempo_item(bpm));
        } else if i < track.len() - 1 {
            assert(track[i] == notes[i - 1]);
            assert(queue[i - 1].wf());
            assert(0 <= super::midi_writer::delta_at(queue, i - 1) <= MAX_DELTA) by {
                if i - 1 > 0 {
                    assert(!queue[i - 1].precedes(queue[i - 2]));
                }
            }
        } else {
            assert(track[i] == end_item());
        }
    }
}

/// Whether `event` is the strike or the release of `channel` on `beat`.
pub open spec fn is_note_of(event: Event, beat: int, channel: int) -> bool {
    event == note_on(beat as u64, channel) || event == note_off(beat as u64, channel)
}

/// Whether some channel below `channels` fires on `beat` and `event` is its
/// strike or its release.
pub open spec fn fired_on(masks: Seq<u16>, event: Event, beat: int, channels: int) -> bool {
    exists|channel: int|
        0 <= channel < channels && edge(masks[channel], beat as u64) && #[trigger] is_note_of(
            event,
            beat,
            channel,
        )
}

/// Whether some channel fires on a beat below `beats` and `event` is its
/// strike or its release.
pub open spec fn fired_before(masks: Seq<u16>, event: Event, beats: int) -> bool {
    exists|beat: int|
        0 <= beat < beats && #[trigger] fired_on(masks, event, beat, NUM_CHANNELS as int)
}

/// The queue of one beat holds what the queue before it held, and the
/// strikes and releases of the channels that fire on the beat.
pub proof fn lemma_queue_after_channels_holds(
    masks: Seq<u16>,
    queue: Seq<Event>,
    beat: u64,
    channels: nat,
    event: Event,
)
    ensures
        queue_after_channels(masks, queue, beat, channels).contains(event) <==> queue.contains(
            event,
        ) || fired_on(masks, event, beat as int, channels as int),
    decreases channels,
{
    if channels > 0 {
        let channel = (channels - 1) as int;
        let before = queue_after_channels(masks, queue, beat, (channels - 1) as nat);
        lemma_queue_after_channels_holds(masks, queue, beat, (channels - 1) as nat, event);
        if edge(masks[channel], beat) {
            let on = note_on(beat, channel);
            let off = note_off(beat, channel);
            lemma_enqueue_contains(before, on, event);
            lemma_enqueue_contains(enqueue(before, on), off, event);
            if event == on || event == off {
                assert(is_note_of(event, beat as int, channel));
            }
        }
        if fired_on(masks, event, beat as int, channels as int) {
            let c = choose|c: int|
                0 <= c < channels && edge(masks[c], beat) && #[trigger] is_note_of(
                    event,
                    beat as int,
                    c,
                );
            if c < channel {
                assert(fired_on(masks, event, beat as int, channel));
            }
        }
        if fired_on(masks, event, beat as int, channel) {
            let c = choose|c: int|
                0 <= c < channel && edge(masks[c], beat) && #[trigger] is_note_of(
                    event,
                    beat as int,
                    c,
                );
            assert(fired_on(masks, event, beat as int, channels as int));
        }
    }
}

/// The queue after some beats holds exactly the strikes and releases of the
/// channels that fire on them.
pub proof fn lemma_queue_after_beats_holds(masks: Seq<u16>, beats: nat, event: Event)
    requires
        beats < u64::MAX,
    ensures
        queue_after_beats(masks, beats).contains(event) <==> fired_before(
            masks,
            event,
            beats as int,
        ),
    decreases beats,
{
    if beats > 0 {
        let last = (beats - 1) as int;
        let before = queue_after_beats(masks, (beats - 1) as nat);
        lemma_queue_after_beats_holds(masks, (beats - 1) as nat, event);
        lemma_queue_after_channels_holds(masks, before, last as u64, NUM_CHANNELS as nat, event);
        if fired_before(masks, event, last) {
            let b = choose|b: int|
                0 <= b < last && #[trigger] fired_on(masks, event, b, NUM_CHANNELS as int);
            assert(fired_before(masks, event, beats as int));
        }
        if fired_on(masks, event, last, NUM_CHANNELS as int) {
            assert(fired_before(masks, event, beats as int));
        }
        if fired_before(masks, event, beats as int) {
            let b = choose|b: int|
                0 <= b < beats && #[trigger] fired_on(masks, event, b, NUM_CHANNELS as int);
            if b < last {
                assert(fired_before(masks, event, last));
            }
        }
    }
}

/// An export holds the strike of a channel on a beat if and only if the
/// channel fires on that beat.
pub proof fn lemma_export_strikes(masks: Seq<u16>, beat: u64, channel: int)
    requires
        masks.len() == NUM_CHANNELS,
        beat < EXPORT_BEATS,
        0 <= channel < NUM_CHANNELS,
    ensures
        export_queue(masks).contains(note_on(beat, channel)) <==> edge(masks[channel], beat),
{
    let event = note_on(beat, channel);
    lemma_queue_after_beats_holds(masks, EXPORT_BEATS as nat, event);
    if edge(masks[channel], beat) {
        assert(is_note_of(event, beat as int, channel));
        assert(fired_on(masks, event, beat as int, NUM_CHANNELS as int));
        assert(fired_before(masks, event, EXPORT_BEATS as int));
    }
    if fired_before(masks, event, EXPORT_BEATS as int) {
        let b = choose|b: int|
            0 <= b < EXPORT_BEATS && #[trigger] fired_on(masks, event, b, NUM_CHANNELS as int);
        let c = choose|c: int|
            0 <= c < NUM_CHANNELS && edge(masks[c], b as u64) && #[trigger] is_note_of(event, b, c);
        assert(event == note_on(b as u64, c));
        assert(b == beat);
        assert(channel_key(c) == channel_key(channel));
        assert(c == channel);
    }
}

/// Whether `queue` holds no event twice.
pub open spec fn at_most_once(queue: Seq<Event>) -> bool {
    forall|event: Event| queue.to_multiset().count(event) <= 1
}

/// The queue that has been built when `channel` is asked for `beat` holds
/// neither the strike nor the release of that channel on that beat.
proof fn lemma_not_yet_queued(masks: Seq<u16>, beat: u64, channel: int, event: Event)
    requires
        beat < EXPORT_BEATS,
        0 <= channel < NUM_CHANNELS,
        is_note_of(event, beat as int, channel),
    ensures
        !queue_after_channels(
            masks,
            queue_after_beats(masks, beat as nat),
            beat,
            channel as nat,
        ).contains(event),
{
    let before = queue_after_beats(masks, beat as nat);
    lemma_queue_after_channels_holds(masks, before, beat, channel as nat, event);
    lemma_queue_after_beats_holds(masks, beat as nat, event);
    if fired_before(masks, event, beat as int) {
        let b = choose|b: int|
            0 <= b < beat && #[trigger] fired_on(masks, event, b, NUM_CHANNELS as int);
        let c = choose|c: int|
            0 <= c < NUM_CHANNELS && edge(masks[c], b as u64) && #[trigger] is_note_of(event, b, c);
        assert(false);
    }
    if fired_on(masks, event, beat as int, channel) {
        let c = choose|c: int|
            0 <= c < channel && edge(masks[c], beat) && #[trigger] is_note_of(
                event,
                beat as int,
                c,
            );
        assert(channel_key(c) == channel_key(channel));
        assert(false);
    }
}

/// An event that joins a queue which does not hold it, and holds no event
/// twice, leaves a queue that holds no event twice.
proof fn lemma_enqueue_once(queue: Seq<Event>, event: Event)
    requires
        at_most_once(queue),
        !queue.contains(event),
    ensures
        at_most_once(enqueue(queue, event)),
{
    broadcast use {vstd::seq_lib::group_to_multiset_ensures, vstd::multiset::group_multiset_axioms};

    lemma_enqueue_holds(queue, event);
    assert(queue.to_multiset().count(event) == 0);
    assert forall|other: Event| enqueue(queue, event).to_multiset().count(other) <= 1 by {
        assert(queue.to_multiset().count(other) <= 1);
    }
}

/// The queue of an export holds no event twice while it is built.
proof fn lemma_queued_once(masks: Seq<u16>, beat: u64, channels: nat)
    requires
        beat < EXPORT_BEATS,
        channels <= NUM_CHANNELS,
    ensures
        at_most_once(
            queue_after_channels(masks, queue_after_beats(masks, beat as nat), beat, channels),
        ),
    decreases beat, channels,
{
    broadcast use {vstd::seq_lib::group_to_multiset_ensures, vstd::multiset::group_multiset_axioms};

    if channels == 0 {
        if beat == 0 {
            assert(queue_after_beats(masks, 0) =~= Seq::empty());
        } else {
            lemma_queued_once(masks, (beat - 1) as u64, NUM_CHANNELS as nat);
        }
    } else {
        let channel = (channels - 1) as int;
        let start = queue_after_beats(masks, beat as nat);
        let before = queue_after_channels(masks, start, beat, (channels - 1) as nat);
        lemma_queued_once(masks, beat, (channels - 1) as nat);
        if edge(masks[channel], beat) {
            let on = note_on(beat, channel);
            let off = note_off(beat, channel);
            lemma_not_yet_queued(masks, beat, channel, on);
            lemma_not_yet_queued(masks, beat, channel, off);
            lemma_enqueue_once(before, on);
            lemma_enqueue_contains(before, on, off);
            lemma_enqueue_once(enqueue(before, on), off);
        }
    }
}

/// An export holds no event twice: every strike and every release stands in
/// it once.
pub proof fn lemma_export_once(masks: Seq<u16>)
    ensures
        export_queue(masks).no_duplicates(),
{
    broadcast use {vstd::seq_lib::group_to_multiset_ensures, vstd::multiset::group_multiset_axioms};

    lemma_queued_once(masks, (EXPORT_BEATS - 1) as u64, NUM_CHANNELS as nat);
    let queue = export_queue(masks);
    assert(at_most_once(queue));
    assert forall|event: Event| queue.to_multiset().contains(event) implies queue.to_multiset().count(
        event,
    ) == 1 by {
        assert(queue.to_multiset().count(event) <= 1);
    }
    queue.lemma_multiset_has_no_duplicates_conv();
}

/// The engine and the export agree: with `frames_per_beat` frames to the
/// beat, the engine strikes a channel on the first frame of a beat if and
/// only if the export holds the channel's strike on that beat.
pub proof fn lemma_export_matches_engine(
    masks: Seq<u16>,
    beat: u64,
    channel: int,
    frames_per_beat: u64,
)
    requires
        masks.len() == NUM_CHANNELS,
        beat < EXPORT_BEATS,
        0 <= channel < NUM_CHANNELS,
        frames_per_beat > 0,
        beat * frames_per_beat <= u64::MAX,
    ensures
        retriggers(masks[channel], (beat * frames_per_beat) as u64, frames_per_beat)
            <==> export_queue(masks).contains(note_on(beat, channel)),
{
    lemma_export_strikes(masks, beat, channel);
    let clock = (beat * frames_per_beat) as u64;
    assert(clock % frames_per_beat == 0 && clock / frames_per_beat == beat) by (nonlinear_arith)
        requires
            clock == beat * frames_per_beat,
            frames_per_beat > 0,
    ;
}

/// While no channel fires, the queue stays as it is.
pub proof fn lemma_silent_channels(masks: Seq<u16>, queue: Seq<Event>, beat: u64, channels: nat)
    requires
        channels <= masks.len(),
        forall|channel: int| 0 <= channel < masks.len() ==> masks[channel] == 0,
    ensures
        queue_after_channels(masks, queue, beat, channels) == queue,
    decreases channels,
{
    if channels > 0 {
        lemma_silent_channels(masks, queue, beat, (channels - 1) as nat);
        lemma_silent_mask_never_fires(beat);
    }
}

/// While no channel fires, the queue stays empty.
pub proof fn lemma_silent_beats(masks: Seq<u16>, beats: nat)
    requires
        masks.len() == NUM_CHANNELS,
        forall|channel: int| 0 <= channel < masks.len() ==> masks[channel] == 0,
    ensures
        queue_after_beats(masks, beats) == Seq::<Event>::empty(),
    decreases beats,
{
    if beats > 0 {
        lemma_silent_beats(masks, (beats - 1) as nat);
        lemma_silent_channels(
            masks,
            queue_after_beats(masks, (beats - 1) as nat),
            (beats - 1) as u64,
            NUM_CHANNELS as nat,
        );
    }
}

/// With no note slot triggered on any channel, the track of an export holds
/// the tempo and the end, and no note.
pub proof fn lemma_silent_export(masks: Seq<u16>, bpm: u32)
    requires
        masks.len() == NUM_CHANNELS,
        forall|channel: int| 0 <= channel < masks.len() ==> masks[channel] == 0,
    ensures
        export_queue(masks) == Seq::<Event>::empty(),
        export_track(masks, bpm) == seq![tempo_item(bpm), end_item()],
{
    lemma_silent_beats(masks, EXPORT_BEATS as nat);
    assert(track_items(Seq::<Event>::empty()) =~= Seq::<TrackItem>::empty());
    assert(export_track(masks, bpm) =~= seq![tempo_item(bpm), end_item()]);
}

/// With no note slot triggered on any channel, the file of an export is the
/// encoding of a track that holds the tempo and the end, and no note.
pub proof fn lemma_silent_export_file(config: Config, file: Result<Vec<u8>, ExportError>)
    requires
        is_export_of(config, file),
        tempo_fits(config.params.bpm),
        forall|channel: int| 0 <= channel < NUM_CHANNELS ==> config.triggered(channel) == 0,
    ensures
        file matches Ok(bytes) && bytes@ == smf_bytes(
            TICKS_PER_BEAT,
            seq![tempo_item(config.params.bpm), end_item()],
        ),
{
    lemma_silent_export(config.triggered_masks(), config.params.bpm);
}

/// In the track of an export the ticks never fall, and on one tick no
/// strike stands before a release.
pub proof fn lemma_export_order(masks: Seq<u16>, i: int, j: int)
    requires
        0 <= i < j < export_queue(masks).len(),
    ensures
        export_queue(masks)[i].tick <= export_queue(masks)[j].tick,
        export_queue(masks)[i].tick == export_queue(masks)[j].tick ==> !(export_queue(
            masks,
        )[i].message is NoteOn && export_queue(masks)[j].message is NoteOff),
{
    lemma_queue_after_beats(masks, EXPORT_BEATS as nat);
    lemma_sorted_order(export_queue(masks), i, j);
}

} // verus!
