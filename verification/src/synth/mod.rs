//! The engine: its configuration, its voices and the export of its patterns.
use vstd::prelude::*;
use crate::pattern::{beat_after, edge, get_beat, pattern, pattern_bit, pattern_word};
use crate::{NOTES_PER_CHANNEL, NUM_CHANNELS, PATTERN_LENGTH};
use sound_bank::{Bank, Sample};
use voice::{
    at_beat, beat_of, channel_muted, clip_after, clip_struck, is_muted, next_frame, note_channel,
    note_slot, step_voice, voice_index, with_slot, without_slot, TimedClip,
};

pub mod control;
pub mod export;
pub mod midi_writer;
pub mod smf;
pub mod sound_bank;
pub mod voice;

verus! {

/// Why an export produced no file.
#[derive(Clone, Copy, PartialEq, Eq, Structural, Debug)]
pub enum ExportError {
    /// Two consecutive events lie further apart than a delta time can say.
    DeltaOutOfRange,
    /// The tempo is zero, or so slow that a quarter note lasts more
    /// microseconds than 24 bits hold.
    TempoOutOfRange,
    /// The file could not be encoded: its track is too long for a chunk.
    Encoding,
}

/// What the control surface sets.
#[derive(Clone, Copy, Debug)]
pub struct Params {
    /// The note slots that stay triggered, by channel.
    pub locked: [u16; NUM_CHANNELS],
    /// The tempo, in quarter notes per minute.
    pub bpm: u32,
    /// Whether the transport runs.
    pub playing: bool,
    /// The muted channels, one bit each.
    pub muted: u64,
    /// The sound of each channel.
    pub channel_samples: [Sample; NUM_CHANNELS],
}

/// What the engine reports of one channel.
#[derive(Clone, Copy, Debug)]
pub struct ChannelFeedback {
    /// The pattern word of the channel at the last beat.
    pub pattern: u32,
}

/// What the engine reports.
#[derive(Clone, Copy, Debug)]
pub struct Feedback {
    pub channels: [ChannelFeedback; NUM_CHANNELS],
}

impl Feedback {
    /// A report in which no channel has a pattern yet.
    pub fn new() -> (feedback: Feedback)
        ensures
            forall|channel: int|
                0 <= channel < NUM_CHANNELS ==> (#[trigger] feedback.channels[channel]).pattern == 0,
    {
        Feedback { channels: [ChannelFeedback { pattern: 0 };NUM_CHANNELS] }
    }
}

/// The state that the control surface and the engine share.
#[derive(Clone, Copy, Debug)]
pub struct Config {
    pub params: Params,
    pub feedback: Feedback,
    /// The note slots that are held, by channel.
    pub selected: [u16; NUM_CHANNELS],
}

impl Config {
    /// The triggered mask of `channel`: the note slots that are held or
    /// locked.
    pub open spec fn triggered(self, channel: int) -> u16 {
        self.selected[channel] | self.params.locked[channel]
    }

    /// The triggered masks of all channels.
    pub open spec fn triggered_masks(self) -> Seq<u16> {
        Seq::new(NUM_CHANNELS as nat, |channel: int| self.triggered(channel))
    }

    /// The state at start: nothing held, locked or muted, the transport
    /// running at 120 quarter notes per minute, every channel a closed hihat.
    pub fn new() -> (config: Config)
        ensures
            config.params.bpm == 120,
            config.params.playing,
            config.params.muted == 0,
            forall|channel: int| 0 <= channel < NUM_CHANNELS ==> config.selected[channel] == 0,
            forall|channel: int| 0 <= channel < NUM_CHANNELS ==> config.params.locked[channel] == 0,
            forall|channel: int|
                0 <= channel < NUM_CHANNELS ==> config.params.channel_samples[channel]
                    == Sample::HihatClosed,
            forall|channel: int|
                0 <= channel < NUM_CHANNELS ==> (#[trigger] config.feedback.channels[channel]).pattern
                    == 0,
    {
        Config {
            params: Params {
                locked: [0u16;NUM_CHANNELS],
                bpm: 120,
                playing: true,
                muted: 0,
                channel_samples: [Sample::HihatClosed;NUM_CHANNELS],
            },
            feedback: Feedback::new(),
            selected: [0u16;NUM_CHANNELS],
        }
    }

    /// The triggered mask of `channel`.
    pub fn triggered_mask(&self, channel: usize) -> (mask: u16)
        requires
            channel < NUM_CHANNELS,
        ensures
            mask == self.triggered(channel as int),
    {
        self.selected[channel] | self.params.locked[channel]
    }

    /// Whether `channel` fires on `beat`.
    pub fn get_beat(&self, channel: usize, beat: u64) -> (fires: bool)
        requires
            channel < NUM_CHANNELS,
        ensures
            fires == edge(self.triggered(channel as int), beat),
    {
        get_beat(self.triggered_mask(channel), beat)
    }
}

/// A key that goes down or up.
#[derive(Clone, Copy, PartialEq, Eq, Structural, Debug)]
pub struct NoteEvent {
    /// The note number, from 0 to 127.
    pub note: u8,
    pub velocity: u8,
    /// Whether the key goes down.
    pub on: bool,
}

/// The held note slots of all channels after `event`: a key that goes down
/// sets its slot, one that goes up clears it.
pub open spec fn selected_after_note(selected: Seq<u16>, event: NoteEvent) -> Seq<u16> {
    let channel = note_channel(event.note);
    let slot = note_slot(event.note);
    selected.update(
        channel,
        if event.on {
            with_slot(selected[channel], slot)
        } else {
            without_slot(selected[channel], slot)
        },
    )
}

/// The held note slots of all channels after `events`, taken in order.
pub open spec fn selected_after_notes(selected: Seq<u16>, events: Seq<NoteEvent>) -> Seq<u16>
    decreases events.len(),
{
    if events.len() == 0 {
        selected
    } else {
        selected_after_note(selected_after_notes(selected, events.drop_last()), events.last())
    }
}

/// What the voices play on one frame.
#[derive(Clone, Copy, Debug)]
pub struct Frame {
    /// Whether the transport runs. Where it does not, the frame is silent.
    pub playing: bool,
    /// For each channel the frame of its sound that it plays, if any.
    pub voices: [Option<usize>; NUM_CHANNELS],
}

/// The engine: a clock that counts frames, and one voice for each channel.
#[derive(Clone, Copy, Debug)]
pub struct Synth {
    sound_bank: Option<Bank>,
    clock: u64,
    config: Config,
    playing: [Option<TimedClip>; NUM_CHANNELS],
}

impl Synth {
    /// The number of frames played so far.
    pub closed spec fn clock(self) -> u64 {
        self.clock
    }

    /// The state that the engine shares with the control surface.
    pub closed spec fn config(self) -> Config {
        self.config
    }

    /// The waveforms that the engine plays, once it has been given any.
    pub closed spec fn bank(self) -> Option<Bank> {
        self.sound_bank
    }

    /// The clip of each voice.
    pub closed spec fn clips(self) -> Seq<Option<TimedClip>> {
        self.playing@
    }

    /// The number of frames that the sound of `channel` lasts; none where
    /// the engine has no waveforms.
    pub open spec fn sound_length(self, channel: int) -> usize {
        match self.bank() {
            Some(bank) => bank.length_of(self.config().params.channel_samples[channel]),
            None => 0,
        }
    }

    /// The clip of `channel` on the current frame, once the beat that may
    /// begin there has been looked at.
    pub open spec fn clip_on_frame(self, frames_per_beat: u64, channel: int) -> Option<TimedClip> {
        clip_struck(
            self.clips()[channel],
            self.config().triggered(channel),
            self.clock(),
            frames_per_beat,
        )
    }

    /// The frame of its sound that `channel` plays on the current frame.
    pub open spec fn voice_on_frame(self, frames_per_beat: u64, channel: int) -> Option<usize> {
        if self.config().params.playing {
            voice_index(
                self.clip_on_frame(frames_per_beat, channel),
                channel_muted(self.config().params.muted, channel),
                self.clock(),
                self.sound_length(channel),
            )
        } else {
            None
        }
    }

    /// The clip of `channel` after the current frame.
    pub open spec fn clip_after_frame(self, frames_per_beat: u64, channel: int) -> Option<
        TimedClip,
    > {
        if self.config().params.playing {
            clip_after(
                self.clip_on_frame(frames_per_beat, channel),
                channel_muted(self.config().params.muted, channel),
                self.clock(),
                self.sound_length(channel),
            )
        } else {
            self.clips()[channel]
        }
    }

    /// The pattern that is reported of `channel` after the current frame:
    /// a new one where a beat begins while the transport runs.
    pub open spec fn pattern_after_frame(self, frames_per_beat: u64, channel: int) -> u32 {
        if self.config().params.playing && at_beat(self.clock(), frames_per_beat) {
            pattern_word(self.config().triggered(channel), beat_of(self.clock(), frames_per_beat))
        } else {
            self.config().feedback.channels[channel].pattern
        }
    }

    /// An engine at frame 0 with the state of `Config::new`, no waveforms
    /// and idle voices.
    pub fn new() -> (synth: Synth)
        ensures
            synth.clock() == 0,
            synth.bank() is None,
            synth.config().params.bpm == 120,
            synth.config().params.playing,
            synth.config().params.muted == 0,
            forall|channel: int| 0 <= channel < NUM_CHANNELS ==> synth.clips()[channel] is None,
            forall|channel: int| 0 <= channel < NUM_CHANNELS ==> synth.config().selected[channel] == 0,
            forall|channel: int|
                0 <= channel < NUM_CHANNELS ==> synth.config().params.locked[channel] == 0,
            forall|channel: int|
                0 <= channel < NUM_CHANNELS ==> synth.config().params.channel_samples[channel]
                    == Sample::HihatClosed,
            forall|channel: int|
                0 <= channel < NUM_CHANNELS ==> (
                #[trigger] synth.config().feedback.channels[channel]).pattern == 0,
    {
        Synth { sound_bank: None, clock: 0, config: Config::new(), playing: [None;NUM_CHANNELS] }
    }

    /// The state that the engine shares with the control surface.
    pub fn get_config(&self) -> (config: &Config)
        ensures
            *config == self.config(),
    {
        &self.config
    }

    /// What the control surface has set.
    pub fn get_params(&self) -> (params: &Params)
        ensures
            *params == self.config().params,
    {
        &self.config.params
    }

    /// What the engine reports.
    pub fn get_feedback(&self) -> (feedback: &Feedback)
        ensures
            *feedback == self.config().feedback,
    {
        &self.config.feedback
    }

    /// Takes over what the control surface has set. What the engine itself
    /// owns, the held note slots and the reported patterns, stays.
    pub fn set_params(&mut self, params: Params)
        ensures
            final(self).config().params == params,
            final(self).config().selected == old(self).config().selected,
            final(self).config().feedback == old(self).config().feedback,
            final(self).clock() == old(self).clock(),
            final(self).clips() == old(self).clips(),
            final(self).bank() == old(self).bank(),
    {
        self.config.params = params;
    }

    /// The number of frames played so far.
    pub fn get_clock(&self) -> (clock: u64)
        ensures
            clock == self.clock(),
    {
        self.clock
    }

    /// Whether the engine lacks waveforms prepared at `sample_rate`.
    pub fn needs_bank(&self, sample_rate: u32) -> (needed: bool)
        ensures
            needed == match self.bank() {
                Some(bank) => bank.rate() != sample_rate,
                None => true,
            },
    {
        match &self.sound_bank {
            Some(bank) => bank.get_sample_rate() != sample_rate,
            None => true,
        }
    }

    /// Gives the engine the waveforms to play from now on.
    pub fn set_bank(&mut self, bank: Bank)
        ensures
            final(self).bank() == Some(bank),
            final(self).config() == old(self).config(),
            final(self).clock() == old(self).clock(),
            final(self).clips() == old(self).clips(),
    {
        self.sound_bank = Some(bank);
    }

    /// A key goes down: the note slot of `note` is held from now on.
    pub fn note_on(&mut self, note: u8)
        requires
            note < 128,
        ensures
            final(self).config().selected@ == old(self).config().selected@.update(
                note_channel(note),
                with_slot(old(self).config().selected[note_channel(note)], note_slot(note)),
            ),
            final(self).config().params == old(self).config().params,
            final(self).config().feedback == old(self).config().feedback,
            final(self).clock() == old(self).clock(),
            final(self).clips() == old(self).clips(),
            final(self).bank() == old(self).bank(),
    {
        let channel: usize = (note as usize) / (NOTES_PER_CHANNEL as usize);
        let slot: u64 = (note as u64) % NOTES_PER_CHANNEL;
        self.config.selected[channel] = self.config.selected[channel] | (1u16 << slot);
    }

    /// A key goes up: the note slot of `note` is held no longer.
    pub fn note_off(&mut self, note: u8)
        requires
            note < 128,
        ensures
            final(self).config().selected@ == old(self).config().selected@.update(
                note_channel(note),
                without_slot(old(self).config().selected[note_channel(note)], note_slot(note)),
            ),
            final(self).config().params == old(self).config().params,
            final(self).config().feedback == old(self).config().feedback,
            final(self).clock() == old(self).clock(),
            final(self).clips() == old(self).clips(),
            final(self).bank() == old(self).bank(),
    {
        let channel: usize = (note as usize) / (NOTES_PER_CHANNEL as usize);
        let slot: u64 = (note as u64) % NOTES_PER_CHANNEL;
        self.config.selected[channel] = self.config.selected[channel] & !(1u16 << slot);
    }

    /// Takes in the note events that have come in, in their order.
    pub fn drain_notes(&mut self, events: &Vec<NoteEvent>)
        requires
            forall|i: int| 0 <= i < events@.len() ==> (#[trigger] events@[i]).note < 128,
        ensures
            final(self).config().selected@ == selected_after_notes(
                old(self).config().selected@,
                events@,
            ),
            final(self).config().params == old(self).config().params,
            final(self).config().feedback == old(self).config().feedback,
            final(self).clock() == old(self).clock(),
            final(self).clips() == old(self).clips(),
            final(self).bank() == old(self).bank(),
    {
        let mut index: usize = 0;
        while index < events.len()
            invariant
                index <= events@.len(),
                forall|i: int| 0 <= i < events@.len() ==> (#[trigger] events@[i]).note < 128,
                self.config.selected@ == selected_after_notes(
                    old(self).config.selected@,
                    events@.take(index as int),
                ),
                self.config.params == old(self).config.params,
                self.config.feedback == old(self).config.feedback,
                self.clock == old(self).clock,
                self.playing == old(self).playing,
                self.sound_bank == old(self).sound_bank,
            decreases events@.len() - index,
        {
            let event = events[index];
            assert(events@.take(index + 1).drop_last() =~= events@.take(index as int));
            if event.on {
                self.note_on(event.note);
            } else {
                self.note_off(event.note);
            }
            index += 1;
        }
        assert(events@.take(index as int) =~= events@);
    }

    /// Plays one frame. Where the transport runs and a beat begins on the
    /// frame, every channel's pattern is recomputed and reported, and the
    /// channels that fire on the beat are struck; then every voice plays a
    /// frame of its sound. Where the transport stands, nothing but the clock
    /// moves. The clock wraps after its last frame.
    pub fn frame(&mut self, frames_per_beat: u64) -> (frame: Frame)
        ensures
            final(self).clock() == next_frame(old(self).clock()),
            final(self).bank() == old(self).bank(),
            final(self).config().params == old(self).config().params,
            final(self).config().selected == old(self).config().selected,
            frame.playing == old(self).config().params.playing,
            forall|channel: int|
                #![trigger frame.voices[channel]]
                #![trigger final(self).clips()[channel]]
                #![trigger final(self).config().feedback.channels[channel]]
                0 <= channel < NUM_CHANNELS ==> {
                    &&& frame.voices[channel] == old(self).voice_on_frame(frames_per_beat, channel)
                    &&& final(self).clips()[channel] == old(self).clip_after_frame(
                        frames_per_beat,
                        channel,
                    )
                    &&& final(self).config().feedback.channels[channel].pattern == old(
                        self,
                    ).pattern_after_frame(frames_per_beat, channel)
                },
    {
        let mut voices: [Option<usize>; NUM_CHANNELS] = [None;NUM_CHANNELS];
        let running = self.config.params.playing;
        if running {
            let muted = self.config.params.muted;
            let starts_beat = frames_per_beat > 0 && self.clock % frames_per_beat == 0;
            let mut channel: usize = 0;
            while channel < NUM_CHANNELS
                invariant
                    channel <= NUM_CHANNELS,
                    running,
                    starts_beat == at_beat(old(self).clock(), frames_per_beat),
                    muted == old(self).config().params.muted,
                    self.clock == old(self).clock,
                    self.sound_bank == old(self).sound_bank,
                    self.config.params == old(self).config.params,
                    self.config.selected == old(self).config.selected,
                    old(self).config.params.playing,
                    forall|c: int|
                        channel <= c < NUM_CHANNELS ==> {
                            &&& voices[c] is None
                            &&& self.playing[c] == old(self).playing[c]
                            &&& self.config.feedback.channels[c] == old(
                                self,
                            ).config.feedback.channels[c]
                        },
                    forall|c: int|
                        0 <= c < channel ==> {
                            &&& voices[c] == old(self).voice_on_frame(frames_per_beat, c)
                            &&& self.playing[c] == old(self).clip_after_frame(frames_per_beat, c)
                            &&& self.config.feedback.channels[c].pattern == old(
                                self,
                            ).pattern_after_frame(frames_per_beat, c)
                        },
                decreases NUM_CHANNELS - channel,
            {
                let mut clip = self.playing[channel];
                if starts_beat {
                    let beat: u64 = self.clock / frames_per_beat;
                    let word = pattern(self.config.triggered_mask(channel), beat);
                    assert(pattern_bit(word, (PATTERN_LENGTH - 1 - 0) as u64) == edge(
                        self.config.triggered(channel as int),
                        beat_after(beat, 0),
                    ));
                    self.config.feedback.channels[channel] = ChannelFeedback { pattern: word };
                    if (word >> (PATTERN_LENGTH - 1)) & 1 == 1 {
                        clip = Some(TimedClip { start_clock: self.clock });
                    }
                }
                let length = match &self.sound_bank {
                    Some(bank) => bank.sound_len(self.config.params.channel_samples[channel]),
                    None => 0,
                };
                let (left, voice) = step_voice(clip, is_muted(muted, channel), self.clock, length);
                self.playing[channel] = left;
                voices[channel] = voice;
                channel += 1;
            }
        }
        self.clock = if self.clock == u64::MAX {
            0
        } else {
            self.clock + 1
        };
        Frame { playing: running, voices }
    }
}

/// Where no note slot of a channel is held or locked, none is triggered.
pub proof fn lemma_idle_channel(config: Config, channel: int)
    requires
        0 <= channel < NUM_CHANNELS,
        config.selected[channel] == 0,
        config.params.locked[channel] == 0,
    ensures
        config.triggered(channel) == 0,
        config.triggered_masks()[channel] == 0,
{
    assert(0u16 | 0u16 == 0) by (bit_vector);
}

/// A channel with no note slot held or locked stays idle: on no frame is it
/// struck, where a beat begins while the transport runs its reported
/// pattern is empty, and an idle voice plays nothing and stays idle.
pub proof fn lemma_idle_frame(synth: Synth, frames_per_beat: u64, channel: int)
    requires
        0 <= channel < NUM_CHANNELS,
        synth.config().selected[channel] == 0,
        synth.config().params.locked[channel] == 0,
    ensures
        synth.clip_on_frame(frames_per_beat, channel) == synth.clips()[channel],
        synth.config().params.playing && at_beat(synth.clock(), frames_per_beat)
            ==> synth.pattern_after_frame(frames_per_beat, channel) == 0,
        synth.clips()[channel] is None ==> synth.voice_on_frame(frames_per_beat, channel) is None
            && synth.clip_after_frame(frames_per_beat, channel) is None,
{
    lemma_idle_channel(synth.config(), channel);
    crate::pattern::lemma_silent_mask_never_fires(beat_of(synth.clock(), frames_per_beat));
    crate::pattern::lemma_silent_pattern(beat_of(synth.clock(), frames_per_beat));
}

/// A muted channel sounds as an idle one: of two engines that are alike on
/// every other channel, the first with `channel` muted, whatever is
/// triggered or playing on it, the second with `channel` unmuted, idle and
/// with no note slot triggered, both play the same frame of the same sound
/// on every channel, which is nothing on `channel`; after the frame they
/// are alike on every other channel still, and the second is still idle on
/// `channel`.
pub proof fn lemma_muted_as_idle(
    muted: Synth,
    idle: Synth,
    frames_per_beat: u64,
    channel: int,
    other: int,
)
    requires
        0 <= channel < NUM_CHANNELS,
        0 <= other < NUM_CHANNELS,
        muted.clock() == idle.clock(),
        muted.bank() == idle.bank(),
        muted.config().params.playing == idle.config().params.playing,
        channel_muted(muted.config().params.muted, channel),
        !channel_muted(idle.config().params.muted, channel),
        idle.config().triggered(channel) == 0,
        idle.clips()[channel] is None,
        forall|c: int|
            0 <= c < NUM_CHANNELS && c != channel ==> {
                &&& muted.clips()[c] == idle.clips()[c]
                &&& muted.config().triggered(c) == idle.config().triggered(c)
                &&& muted.config().params.channel_samples[c]
                    == idle.config().params.channel_samples[c]
                &&& muted.config().feedback.channels[c] == idle.config().feedback.channels[c]
                &&& channel_muted(muted.config().params.muted, c) == channel_muted(
                    idle.config().params.muted,
                    c,
                )
            },
    ensures
        muted.voice_on_frame(frames_per_beat, other) == idle.voice_on_frame(
            frames_per_beat,
            other,
        ),
        muted.voice_on_frame(frames_per_beat, channel) is None,
        idle.clip_after_frame(frames_per_beat, channel) is None,
        other != channel ==> muted.clip_after_frame(frames_per_beat, other)
            == idle.clip_after_frame(frames_per_beat, other) && muted.pattern_after_frame(
            frames_per_beat,
            other,
        ) == idle.pattern_after_frame(frames_per_beat, other),
{
    crate::pattern::lemma_silent_mask_never_fires(beat_of(idle.clock(), frames_per_beat));
}

/// Muting a channel silences that channel and no other: of two engines
/// that differ in nothing but the mute bit of `channel`, set in the second,
/// the second plays nothing on `channel`, and on every other channel both
/// play the same frame of the same sound and keep the same clip.
pub proof fn lemma_mute_silences_one_channel(
    synth: Synth,
    muted: Synth,
    frames_per_beat: u64,
    channel: int,
    other: int,
)
    requires
        0 <= channel < NUM_CHANNELS,
        0 <= other < NUM_CHANNELS,
        other != channel,
        muted.clock() == synth.clock(),
        muted.clips() == synth.clips(),
        muted.bank() == synth.bank(),
        muted.config().selected == synth.config().selected,
        muted.config().feedback == synth.config().feedback,
        muted.config().params.locked == synth.config().params.locked,
        muted.config().params.bpm == synth.config().params.bpm,
        muted.config().params.playing == synth.config().params.playing,
        muted.config().params.channel_samples == synth.config().params.channel_samples,
        muted.config().params.muted == control::with_mute(synth.config().params.muted, channel),
    ensures
        muted.voice_on_frame(frames_per_beat, channel) is None,
        muted.voice_on_frame(frames_per_beat, other) == synth.voice_on_frame(
            frames_per_beat,
            other,
        ),
        muted.clip_after_frame(frames_per_beat, other) == synth.clip_after_frame(
            frames_per_beat,
            other,
        ),
        muted.pattern_after_frame(frames_per_beat, other) == synth.pattern_after_frame(
            frames_per_beat,
            other,
        ),
{
    control::lemma_mute_bits(synth.config().params.muted, channel, channel);
    control::lemma_mute_bits(synth.config().params.muted, channel, other);
}

} // verus!
