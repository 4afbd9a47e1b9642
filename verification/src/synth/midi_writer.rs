//! Note events and the queue that brings them into the order of a track.
use vstd::prelude::*;
use std::cmp::Ordering;
use super::smf::{TrackItem, TrackItemKind};
use super::ExportError;

verus! {

/// The largest delta time that a track can hold: 28 bits.
pub const MAX_DELTA: u64 = 0x0FFF_FFFF;

/// What a note event does to its key.
#[derive(Clone, Copy, PartialEq, Eq, Structural, Debug)]
pub enum Message {
    /// The key is released.
    NoteOff { key: u8, vel: u8 },
    /// The key is struck.
    NoteOn { key: u8, vel: u8 },
}

impl Message {
    /// The place of the message among the events of one tick: releases
    /// stand before strikes.
    pub open spec fn rank(self) -> int {
        match self {
            Message::NoteOff { .. } => 0,
            Message::NoteOn { .. } => 1,
        }
    }

    /// The key that the message is about.
    pub open spec fn key(self) -> u8 {
        match self {
            Message::NoteOff { key, .. } => key,
            Message::NoteOn { key, .. } => key,
        }
    }

    /// The velocity of the message.
    pub open spec fn vel(self) -> u8 {
        match self {
            Message::NoteOff { vel, .. } => vel,
            Message::NoteOn { vel, .. } => vel,
        }
    }

    /// Key and velocity fit in seven bits.
    pub open spec fn wf(self) -> bool {
        self.key() < 128 && self.vel() < 128
    }

    /// Whether the message releases its key.
    pub fn is_note_off(&self) -> (off: bool)
        ensures
            off == (self.rank() == 0),
    {
        match self {
            Message::NoteOff { .. } => true,
            Message::NoteOn { .. } => false,
        }
    }

    /// The key that the message is about.
    pub fn get_key(&self) -> (key: u8)
        ensures
            key == self.key(),
    {
        match self {
            Message::NoteOff { key, .. } => *key,
            Message::NoteOn { key, .. } => *key,
        }
    }

    /// The velocity of the message.
    pub fn get_vel(&self) -> (vel: u8)
        ensures
            vel == self.vel(),
    {
        match self {
            Message::NoteOff { vel, .. } => *vel,
            Message::NoteOn { vel, .. } => *vel,
        }
    }
}

/// A note event at an absolute tick.
#[derive(Clone, Copy, PartialEq, Eq, Structural, Debug)]
pub struct Event {
    /// The tick on which the event takes place.
    pub tick: u64,
    /// The channel of the file that carries the event.
    pub channel: u8,
    /// What happens.
    pub message: Message,
}

impl Event {
    /// The channel fits in four bits, key and velocity in seven.
    pub open spec fn wf(self) -> bool {
        self.channel < 16 && self.message.wf()
    }

    /// Whether `self` stands before `other` in a track: the earlier tick
    /// first; on one tick releases before strikes; then the lower channel,
    /// the higher key, the higher velocity.
    pub open spec fn precedes(self, other: Event) -> bool {
        if self.tick != other.tick {
            self.tick < other.tick
        } else if self.message.rank() != other.message.rank() {
            self.message.rank() < other.message.rank()
        } else if self.channel != other.channel {
            self.channel < other.channel
        } else if self.message.key() != other.message.key() {
            self.message.key() > other.message.key()
        } else {
            self.message.vel() > other.message.vel()
        }
    }

    /// Whether `self` stands before `other` in a track.
    pub fn comes_before(&self, other: &Event) -> (before: bool)
        ensures
            before == self.precedes(*other),
    {
        let self_off = self.message.is_note_off();
        let other_off = other.message.is_note_off();
        if self.tick != other.tick {
            self.tick < other.tick
        } else if self_off != other_off {
            self_off
        } else if self.channel != other.channel {
            self.channel < other.channel
        } else if self.message.get_key() != other.message.get_key() {
            self.message.get_key() > other.message.get_key()
        } else {
            self.message.get_vel() > other.message.get_vel()
        }
    }

    /// Compares two events by priority: the greater one leaves the queue
    /// first, so `Greater` says that `self` stands before `other` in a track.
    pub fn cmp(&self, other: &Event) -> (order: Ordering)
        ensures
            (order == Ordering::Greater) == self.precedes(*other),
            (order == Ordering::Less) == other.precedes(*self),
            (order == Ordering::Equal) == (*self == *other),
    {
        if self.comes_before(other) {
            Ordering::Greater
        } else if other.comes_before(self) {
            Ordering::Less
        } else {
            Ordering::Equal
        }
    }

    /// As `cmp`: every two events are comparable.
    pub fn partial_cmp(&self, other: &Event) -> (order: Option<Ordering>)
        ensures
            order is Some,
            (order == Some(Ordering::Greater)) == self.precedes(*other),
            (order == Some(Ordering::Less)) == other.precedes(*self),
            (order == Some(Ordering::Equal)) == (*self == *other),
    {
        Some(self.cmp(other))
    }
}

/// Whether the events of `queue` stand in the order of a track.
pub open spec fn sorted(queue: Seq<Event>) -> bool {
    forall|i: int, j: int| 0 <= i < j < queue.len() ==> !queue[j].precedes(queue[i])
}

/// The queue after `event` has joined it: the event stands behind all
/// events that it does not precede.
pub open spec fn enqueue(queue: Seq<Event>, event: Event) -> Seq<Event>
    decreases queue.len(),
{
    if queue.len() == 0 {
        seq![event]
    } else if event.precedes(queue.last()) {
        enqueue(queue.drop_last(), event).push(queue.last())
    } else {
        queue.push(event)
    }
}

/// The ticks between the event at `index` and the one before it; the first
/// event counts from tick 0.
pub open spec fn delta_at(queue: Seq<Event>, index: int) -> int {
    if index == 0 {
        queue[index].tick as int
    } else {
        queue[index].tick - queue[index - 1].tick
    }
}

/// Whether every delta time of `queue` fits in a track.
pub open spec fn deltas_fit(queue: Seq<Event>) -> bool {
    forall|index: int| 0 <= index < queue.len() ==> #[trigger] delta_at(queue, index) <= MAX_DELTA
}

/// The event at `index` as an event of a track.
pub open spec fn track_item_at(queue: Seq<Event>, index: int) -> TrackItem {
    TrackItem {
        delta: delta_at(queue, index) as u32,
        kind: TrackItemKind::Midi {
            channel: queue[index].channel,
            message: queue[index].message,
        },
    }
}

/// The events of `queue` as the events of a track, each with its delta time.
pub open spec fn track_items(queue: Seq<Event>) -> Seq<TrackItem> {
    Seq::new(queue.len(), |index: int| track_item_at(queue, index))
}

/// Where `event` stands before everything from `at` on and before nothing
/// in front of `at`, it joins the queue at `at`.
proof fn lemma_enqueue_at(queue: Seq<Event>, event: Event, at: int)
    requires
        0 <= at <= queue.len(),
        forall|k: int| at <= k < queue.len() ==> event.precedes(queue[k]),
        at > 0 ==> !event.precedes(queue[at - 1]),
    ensures
        enqueue(queue, event) == queue.insert(at, event),
    decreases queue.len(),
{
    if queue.len() == 0 {
        assert(seq![event] =~= queue.insert(at, event));
    } else if at == queue.len() {
        assert(queue.push(event) =~= queue.insert(at, event));
    } else {
        lemma_enqueue_at(queue.drop_last(), event, at);
        assert(queue.drop_last().insert(at, event).push(queue.last()) =~= queue.insert(
            at,
            event,
        ));
    }
}

/// A queue in order stays in order when an event joins it.
pub proof fn lemma_enqueue_sorted(queue: Seq<Event>, event: Event)
    requires
        sorted(queue),
    ensures
        sorted(enqueue(queue, event)),
        enqueue(queue, event).len() == queue.len() + 1,
    decreases queue.len(),
{
    if queue.len() > 0 && event.precedes(queue.last()) {
        let front = queue.drop_last();
        assert(sorted(front)) by {
            assert forall|i: int, j: int| 0 <= i < j < front.len() implies !front[j].precedes(
                front[i],
            ) by {
                assert(!queue[j].precedes(queue[i]));
            }
        }
        lemma_enqueue_sorted(front, event);
        lemma_enqueue_holds(front, event);
        let joined = enqueue(front, event);
        let after = joined.push(queue.last());
        assert forall|i: int, j: int| 0 <= i < j < after.len() implies !after[j].precedes(
            after[i],
        ) by {
            if j == joined.len() {
                let e = joined[i];
                if e != event {
                    let k = choose|k: int| 0 <= k < front.len() && front[k] == e;
                    assert(!queue[queue.len() - 1].precedes(queue[k]));
                }
            } else {
                assert(!joined[j].precedes(joined[i]));
            }
        }
    } else if queue.len() > 0 {
        let after = queue.push(event);
        assert forall|i: int, j: int| 0 <= i < j < after.len() implies !after[j].precedes(
            after[i],
        ) by {
            if j == queue.len() {
                if i < queue.len() - 1 {
                    assert(!queue[queue.len() - 1].precedes(queue[i]));
                }
            } else {
                assert(!queue[j].precedes(queue[i]));
            }
        }
    }
}

/// The queue after an event has joined it holds that event and what it held
/// before, and nothing else.
pub proof fn lemma_enqueue_holds(queue: Seq<Event>, event: Event)
    ensures
        enqueue(queue, event).len() == queue.len() + 1,
        enqueue(queue, event).to_multiset() == queue.to_multiset().insert(event),
        forall|i: int|
            0 <= i < enqueue(queue, event).len() ==> enqueue(queue, event)[i] == event || exists|
                k: int,
            |
                0 <= k < queue.len() && queue[k] == #[trigger] enqueue(queue, event)[i],
    decreases queue.len(),
{
    broadcast use vstd::seq_lib::group_to_multiset_ensures;

    if queue.len() == 0 {
        assert(queue =~= Seq::empty());
        assert(seq![event] =~= Seq::<Event>::empty().push(event));
    } else if event.precedes(queue.last()) {
        let front = queue.drop_last();
        lemma_enqueue_holds(front, event);
        assert(queue =~= front.push(queue.last()));
        let joined = enqueue(front, event);
        assert(joined.push(queue.last()).to_multiset() =~= queue.to_multiset().insert(event));
        assert forall|i: int| 0 <= i < joined.push(queue.last()).len() implies joined.push(
            queue.last(),
        )[i] == event || exists|k: int|
            0 <= k < queue.len() && queue[k] == #[trigger] joined.push(queue.last())[i] by {
            if i == joined.len() {
                assert(queue[queue.len() - 1] == joined.push(queue.last())[i]);
            } else if joined[i] != event {
                let k = choose|k: int| 0 <= k < front.len() && front[k] == joined[i];
                assert(queue[k] == joined[i]);
            }
        }
    } else {
        assert forall|i: int| 0 <= i < queue.push(event).len() implies queue.push(event)[i]
            == event || exists|k: int|
            0 <= k < queue.len() && queue[k] == #[trigger] queue.push(event)[i] by {
            if i < queue.len() {
                assert(queue[i] == queue.push(event)[i]);
            }
        }
    }
}

/// The queue after an event has joined it holds an event if and only if it
/// is the one that joined or the queue held it before.
pub proof fn lemma_enqueue_contains(queue: Seq<Event>, event: Event, other: Event)
    ensures
        enqueue(queue, event).contains(other) <==> queue.contains(other) || other == event,
    decreases queue.len(),
{
    if queue.len() == 0 {
        assert(seq![event][0] == event);
    } else if event.precedes(queue.last()) {
        let front = queue.drop_last();
        let joined = enqueue(front, event);
        lemma_enqueue_contains(front, event, other);
        assert(queue =~= front.push(queue.last()));
        lemma_push_contains(front, queue.last(), other);
        lemma_push_contains(joined, queue.last(), other);
    } else {
        lemma_push_contains(queue, event, other);
    }
}

/// A sequence with one more item at its end holds that item and what it
/// held before.
proof fn lemma_push_contains(items: Seq<Event>, last: Event, other: Event)
    ensures
        items.push(last).contains(other) <==> items.contains(other) || other == last,
{
    let pushed = items.push(last);
    if items.contains(other) {
        let k = choose|k: int| 0 <= k < items.len() && items[k] == other;
        assert(pushed[k] == other);
    }
    if other == last {
        assert(pushed[items.len() as int] == other);
    }
    if pushed.contains(other) {
        let k = choose|k: int| 0 <= k < pushed.len() && pushed[k] == other;
        if k < items.len() {
            assert(items[k] == other);
        }
    }
}

/// On one tick a release stands before a strike, whatever their channels,
/// keys and velocities.
pub proof fn lemma_note_off_first(off: Event, on: Event)
    requires
        off.tick == on.tick,
        off.message is NoteOff,
        on.message is NoteOn,
    ensures
        off.precedes(on),
        !on.precedes(off),
{
}

/// In a queue in order no strike stands before a release of the same tick,
/// and the ticks never fall.
pub proof fn lemma_sorted_order(queue: Seq<Event>, i: int, j: int)
    requires
        sorted(queue),
        0 <= i < j < queue.len(),
    ensures
        queue[i].tick <= queue[j].tick,
        queue[i].tick == queue[j].tick ==> !(queue[i].message is NoteOn
            && queue[j].message is NoteOff),
{
    assert(!queue[j].precedes(queue[i]));
}

/// Of two different events one stands before the other, never both.
pub proof fn lemma_precedes_total(a: Event, b: Event)
    ensures
        a == b <==> !a.precedes(b) && !b.precedes(a),
        !(a.precedes(b) && b.precedes(a)),
{
}

/// The order of a track is transitive.
pub proof fn lemma_precedes_transitive(a: Event, b: Event, c: Event)
    requires
        a.precedes(b),
        b.precedes(c),
    ensures
        a.precedes(c),
{
}

/// The order of a track is unique: two queues in order that hold the same
/// events, each as often as the other, are the same queue.
pub proof fn lemma_sorted_unique(first: Seq<Event>, second: Seq<Event>)
    requires
        sorted(first),
        sorted(second),
        first.to_multiset() == second.to_multiset(),
    ensures
        first == second,
    decreases first.len(),
{
    broadcast use {vstd::seq_lib::group_to_multiset_ensures, vstd::multiset::group_multiset_axioms};

    assert(first.len() == second.len()) by {
        vstd::seq_lib::to_multiset_len(first);
        vstd::seq_lib::to_multiset_len(second);
    }
    if first.len() == 0 {
        assert(first =~= second);
    } else {
        let a = first.last();
        let b = second.last();
        assert(first[first.len() - 1] == a);
        assert(second[second.len() - 1] == b);
        assert(first.contains(a));
        assert(second.contains(b));
        assert(second.to_multiset().count(a) > 0);
        assert(first.to_multiset().count(b) > 0);
        assert(second.contains(a));
        assert(first.contains(b));
        let k = choose|k: int| 0 <= k < second.len() && second[k] == a;
        if k < second.len() - 1 {
            assert(!second[second.len() - 1].precedes(second[k]));
        }
        let m = choose|m: int| 0 <= m < first.len() && first[m] == b;
        if m < first.len() - 1 {
            assert(!first[first.len() - 1].precedes(first[m]));
        }
        lemma_precedes_total(a, b);
        assert(a == b);
        let first_front = first.drop_last();
        let second_front = second.drop_last();
        assert(first =~= first_front.push(a));
        assert(second =~= second_front.push(a));
        assert(first_front.to_multiset().insert(a) =~= second_front.to_multiset().insert(a));
        assert(first_front.to_multiset() =~= second_front.to_multiset()) by {
            assert forall|e: Event|
                first_front.to_multiset().count(e) == second_front.to_multiset().count(e) by {
                assert(first_front.to_multiset().insert(a).count(e) == second_front.to_multiset().insert(
                    a,
                ).count(e));
            }
        }
        assert(sorted(first_front)) by {
            assert forall|i: int, j: int| 0 <= i < j < first_front.len() implies !first_front[j].precedes(
                first_front[i],
            ) by {
                assert(!first[j].precedes(first[i]));
            }
        }
        assert(sorted(second_front)) by {
            assert forall|i: int, j: int|
                0 <= i < j < second_front.len() implies !second_front[j].precedes(
                second_front[i],
            ) by {
                assert(!second[j].precedes(second[i]));
            }
        }
        lemma_sorted_unique(first_front, second_front);
    }
}

/// The queue does not depend on the order in which events join it.
pub proof fn lemma_enqueue_commutes(queue: Seq<Event>, a: Event, b: Event)
    requires
        sorted(queue),
    ensures
        enqueue(enqueue(queue, a), b) == enqueue(enqueue(queue, b), a),
{
    broadcast use vstd::multiset::group_multiset_axioms;

    lemma_enqueue_sorted(queue, a);
    lemma_enqueue_sorted(enqueue(queue, a), b);
    lemma_enqueue_sorted(queue, b);
    lemma_enqueue_sorted(enqueue(queue, b), a);
    lemma_enqueue_holds(queue, a);
    lemma_enqueue_holds(enqueue(queue, a), b);
    lemma_enqueue_holds(queue, b);
    lemma_enqueue_holds(enqueue(queue, b), a);
    assert(queue.to_multiset().insert(a).insert(b) =~= queue.to_multiset().insert(b).insert(a));
    lemma_sorted_unique(enqueue(enqueue(queue, a), b), enqueue(enqueue(queue, b), a));
}

/// Collects note events in any order and hands them out as the events of a
/// track, in the order of a track.
pub struct MidiWriter {
    queue: Vec<Event>,
}

impl View for MidiWriter {
    type V = Seq<Event>;

    /// The events collected so far, in the order in which they will leave.
    closed spec fn view(&self) -> Seq<Event> {
        self.queue@
    }
}

impl MidiWriter {
    /// The collected events are valid and stand in the order of a track.
    pub open spec fn wf(self) -> bool {
        &&& sorted(self@)
        &&& forall|i: int| 0 <= i < self@.len() ==> (#[trigger] self@[i]).wf()
    }

    /// A writer that holds no event.
    pub fn new() -> (writer: MidiWriter)
        ensures
            writer.wf(),
            writer@ == Seq::<Event>::empty(),
    {
        MidiWriter { queue: Vec::new() }
    }

    /// The number of events collected so far.
    pub fn len(&self) -> (len: usize)
        ensures
            len == self@.len(),
    {
        self.queue.len()
    }

    /// Takes `event` into the queue.
    pub fn add_event(&mut self, event: Event)
        requires
            old(self).wf(),
            event.wf(),
        ensures
            final(self).wf(),
            final(self)@ == enqueue(old(self)@, event),
            final(self)@.len() == old(self)@.len() + 1,
            final(self)@.to_multiset() == old(self)@.to_multiset().insert(event),
    {
        let mut at: usize = self.queue.len();
        while at > 0 && event.comes_before(&self.queue[at - 1])
            invariant
                at <= self.queue.len(),
                self.queue@ == old(self).queue@,
                forall|k: int| at <= k < self.queue.len() ==> event.precedes(self.queue[k]),
            decreases at,
        {
            at -= 1;
        }
        proof {
            lemma_enqueue_at(self.queue@, event, at as int);
            lemma_enqueue_sorted(self.queue@, event);
            lemma_enqueue_holds(self.queue@, event);
        }
        self.queue.insert(at, event);
    }

    /// Hands out the collected events as the events of a track, each with
    /// the ticks since the one before it, the first counted from tick 0.
    /// Fails, and hands out nothing, where two consecutive events lie
    /// further apart than a delta time can say.
    pub fn flush(self) -> (track: Result<Vec<TrackItem>, ExportError>)
        requires
            self.wf(),
        ensures
            match track {
                Ok(items) => deltas_fit(self@) && items@ == track_items(self@),
                Err(error) => !deltas_fit(self@) && error == ExportError::DeltaOutOfRange,
            },
    {
        let mut items: Vec<TrackItem> = Vec::new();
        let mut last_tick: u64 = 0;
        let mut index: usize = 0;
        while index < self.queue.len()
            invariant
                index <= self.queue.len(),
                sorted(self.queue@),
                last_tick == (if index == 0 {
                    0
                } else {
                    self.queue[index - 1].tick
                }),
                items@.len() == index,
                forall|k: int| 0 <= k < index ==> #[trigger] delta_at(self.queue@, k) <= MAX_DELTA,
                forall|k: int| 0 <= k < index ==> items[k] == track_item_at(self.queue@, k),
            decreases self.queue.len() - index,
        {
            let event = self.queue[index];
            proof {
                if index > 0 {
                    lemma_sorted_order(self.queue@, index - 1, index as int);
                }
            }
            let delta: u64 = event.tick - last_tick;
            assert(delta == delta_at(self.queue@, index as int));
            if delta > MAX_DELTA {
                return Err(ExportError::DeltaOutOfRange);
            }
            items.push(
                TrackItem {
                    delta: delta as u32,
                    kind: TrackItemKind::Midi { channel: event.channel, message: event.message },
                },
            );
            last_tick = event.tick;
            index += 1;
        }
        assert(items@ =~= track_items(self@));
        Ok(items)
    }
}

} // verus!
