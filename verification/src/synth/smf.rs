//! The events of a track as plain values, and their encoding as a file.
use vstd::prelude::*;
use super::midi_writer::Message;

verus! {

/// What an event of a track is.
#[derive(Clone, Copy, PartialEq, Eq, Structural, Debug)]
pub enum TrackItemKind {
    /// Sets the tempo, in microseconds per quarter note.
    Tempo { us_per_beat: u32 },
    /// A note event on a channel.
    Midi { channel: u8, message: Message },
    /// Ends the track.
    EndOfTrack,
}

/// An event of a track: what happens, and how many ticks after the event
/// before it.
#[derive(Clone, Copy, PartialEq, Eq, Structural, Debug)]
pub struct TrackItem {
    pub delta: u32,
    pub kind: TrackItemKind,
}

impl TrackItem {
    /// Every number of the item fits in the bits that a file gives it: 28
    /// for the delta time, 24 for a tempo, 4 for a channel, 7 for a key or a
    /// velocity.
    pub open spec fn wf(self) -> bool {
        &&& self.delta <= 0x0FFF_FFFF
        &&& match self.kind {
            TrackItemKind::Tempo { us_per_beat } => us_per_beat <= 0x00FF_FFFF,
            TrackItemKind::Midi { channel, message } => channel < 16 && message.wf(),
            TrackItemKind::EndOfTrack => true,
        }
    }
}

/// A number of events that every track can hold: with ten bytes to the
/// event its chunk stays within the 32 bits of a chunk's length.
pub const MAX_TRACK_ITEMS: usize = 400_000_000;

/// An event of a track as `midly` holds it.
#[verifier::external_type_specification]
#[verifier::external_body]
pub struct ExTrackEvent<'a>(midly::TrackEvent<'a>);

/// The bytes that `midly::Smf::write` produces for a single-track file whose
/// header counts `ticks_per_beat` ticks to the quarter note and whose one
/// track holds `track`.
pub uninterp spec fn smf_bytes(ticks_per_beat: u16, track: Seq<TrackItem>) -> Seq<u8>;

/// Builds the `midly::TrackEvent` that holds what `item` holds. Nothing is
/// claimed of the result.
#[verifier::external_body]
fn track_event(item: &TrackItem) -> midly::TrackEvent<'static> {
    let kind = match item.kind {
        TrackItemKind::Tempo { us_per_beat } => midly::TrackEventKind::Meta(midly::MetaMessage::Tempo(us_per_beat.into())),
        TrackItemKind::EndOfTrack => midly::TrackEventKind::Meta(midly::MetaMessage::EndOfTrack),
        TrackItemKind::Midi { channel, message } => midly::TrackEventKind::Midi {
            channel: channel.into(),
            message: match message {
                Message::NoteOff { key, vel } => midly::MidiMessage::NoteOff { key: key.into(), vel: vel.into() },
                Message::NoteOn { key, vel } => midly::MidiMessage::NoteOn { key: key.into(), vel: vel.into() },
            },
        },
    };
    midly::TrackEvent { delta: item.delta.into(), kind }
}

/// Calls `midly::Smf::write` on a single-track file whose header counts
/// `ticks_per_beat` ticks to the quarter note and whose one track holds
/// `track`, event by event. Claims that the bytes written depend on
/// `ticks_per_beat` and `track` alone, and that the call succeeds on a track
/// of at most `MAX_TRACK_ITEMS` events: `midly` refuses a file only for a
/// track count beyond 16 bits or a track chunk beyond 32 bits, and writes at
/// most ten bytes for an event whose numbers fit.
#[verifier::external_body]
pub(crate) fn encode_track(ticks_per_beat: u16, track: &Vec<TrackItem>) -> (file: Option<Vec<u8>>)
    requires
        ticks_per_beat < 0x8000,
        forall|i: int| 0 <= i < track@.len() ==> (#[trigger] track@[i]).wf(),
    ensures
        file matches Some(bytes) ==> bytes@ == smf_bytes(ticks_per_beat, track@),
        track@.len() <= MAX_TRACK_ITEMS ==> file is Some,
{
    let timing = midly::Timing::Metrical(ticks_per_beat.into());
    let mut file = midly::Smf::new(midly::Header::new(midly::Format::SingleTrack, timing));
    file.tracks.push(track.iter().map(track_event).collect());
    let mut bytes = Vec::new();
    file.write(&mut bytes).ok().map(|_| bytes)
}

} // verus!
