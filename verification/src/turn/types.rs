//! What turn detection speaks of.

use crate::asr::VadEvent;
use crate::time::Timestamp;
use smallvec::SmallVec;
use vstd::prelude::*;

verus! {

/// What happens in a turn.
#[derive(Debug, Clone, Copy, PartialEq, Eq, Structural)]
pub enum TurnEventKind {
    /// Speech started, after silence.
    SpeechStart,
    /// Speech ended, and silence follows.
    SpeechEnd,
    /// The turn has ended and can be handed on.
    TurnCommitted,
}

/// Something that happened in a turn.
#[derive(Debug, Clone, Copy, PartialEq, Eq, Structural)]
pub struct TurnEvent {
    pub kind: TurnEventKind,
    pub ts: Timestamp,
}

impl TurnEvent {
    /// Speech started at `ts`.
    pub fn speech_start(ts: Timestamp) -> (r: Self)
        ensures
            r == (TurnEvent { kind: TurnEventKind::SpeechStart, ts }),
    {
        TurnEvent { kind: TurnEventKind::SpeechStart, ts }
    }

    /// Speech ended at `ts`.
    pub fn speech_end(ts: Timestamp) -> (r: Self)
        ensures
            r == (TurnEvent { kind: TurnEventKind::SpeechEnd, ts }),
    {
        TurnEvent { kind: TurnEventKind::SpeechEnd, ts }
    }

    /// The turn was committed at `ts`.
    pub fn turn_committed(ts: Timestamp) -> (r: Self)
        ensures
            r == (TurnEvent { kind: TurnEventKind::TurnCommitted, ts }),
    {
        TurnEvent { kind: TurnEventKind::TurnCommitted, ts }
    }
}

/// A list of events in a vector of `smallvec`.
#[verifier::external_body]
pub struct EventList {
    list: SmallVec<[TurnEvent; 4]>,
}

/// The events of a list, in order.
pub uninterp spec fn events_in(list: EventList) -> Seq<TurnEvent>;

/// `SmallVec::new`: no events.
#[verifier::external_body]
fn list_new() -> (r: EventList)
    ensures
        events_in(r) == Seq::<TurnEvent>::empty(),
{
    EventList { list: SmallVec::new() }
}

/// `SmallVec::push`: the event goes to the end of the list.
#[verifier::external_body]
fn list_push(list: &mut EventList, event: TurnEvent)
    ensures
        events_in(*final(list)) == events_in(*old(list)).push(event),
{
    list.list.push(event)
}

/// `SmallVec::len`: the number of events.
#[verifier::external_body]
fn list_len(list: &EventList) -> (r: usize)
    ensures
        r == events_in(*list).len(),
{
    list.list.len()
}

/// The event at a place, by the indexing of `SmallVec`, which panics beyond the last event.
#[verifier::external_body]
fn list_get(list: &EventList, place: usize) -> (r: TurnEvent)
    requires
        place < events_in(*list).len(),
    ensures
        r == events_in(*list)[place as int],
{
    list.list[place]
}

/// `SmallVec::clear`: no events are left.
#[verifier::external_body]
fn list_clear(list: &mut EventList)
    ensures
        events_in(*final(list)) == Seq::<TurnEvent>::empty(),
{
    list.list.clear()
}

/// The events that a detector gives, in order.
pub struct TurnEvents {
    list: EventList,
}

impl View for TurnEvents {
    type V = Seq<TurnEvent>;

    closed spec fn view(&self) -> Seq<TurnEvent> {
        events_in(self.list)
    }
}

impl TurnEvents {
    /// No events.
    pub fn new() -> (r: Self)
        ensures
            r@ == Seq::<TurnEvent>::empty(),
    {
        TurnEvents { list: list_new() }
    }

    /// Appends an event.
    pub fn push(&mut self, event: TurnEvent)
        ensures
            final(self)@ == old(self)@.push(event),
    {
        list_push(&mut self.list, event);
    }

    /// How many events there are.
    pub fn len(&self) -> (r: usize)
        ensures
            r == self@.len(),
    {
        list_len(&self.list)
    }

    /// The event at a place, where there is one.
    pub fn get(&self, place: usize) -> (r: Option<TurnEvent>)
        ensures
            r == if place < self@.len() {
                Some(self@[place as int])
            } else {
                None
            },
    {
        if place < list_len(&self.list) {
            Some(list_get(&self.list, place))
        } else {
            None
        }
    }

    /// Drops all events.
    pub fn clear(&mut self)
        ensures
            final(self)@ == Seq::<TurnEvent>::empty(),
    {
        list_clear(&mut self.list);
    }
}

/// Audio as it comes in.
#[derive(Debug, Clone, Copy)]
pub struct AudioFrameRef<'a> {
    pub samples: &'a [i16],
    pub sample_rate: u32,
    pub channels: u16,
    pub ts: Timestamp,
}

/// When a turn ends.
#[derive(Debug, Clone, Copy, PartialEq, Eq, Structural)]
pub struct TurnDetectorConfig {
    /// After how much silence the end of the turn is considered.
    pub min_silence_ms: u64,
    /// For how long silence must go on from there.
    pub commit_ms: u64,
    /// After how much silence the turn ends in any case.
    pub force_end_ms: u64,
    /// How often the end is considered.
    pub eval_interval_ms: u64,
    /// Below which level audio counts as silence, where nothing better tells.
    pub silence_threshold: u16,
}

impl Default for TurnDetectorConfig {
    fn default() -> (r: Self)
        ensures
            r == (TurnDetectorConfig {
                min_silence_ms: 250,
                commit_ms: 100,
                force_end_ms: 2000,
                eval_interval_ms: 80,
                silence_threshold: 200,
            }),
    {
        TurnDetectorConfig {
            min_silence_ms: 250,
            commit_ms: 100,
            force_end_ms: 2000,
            eval_interval_ms: 80,
            silence_threshold: 200,
        }
    }
}

/// Detects where turns end.
pub trait TurnBoundaryDetector {
    /// Takes audio in.
    fn push_audio(&mut self, frame: AudioFrameRef<'_>, out: &mut TurnEvents);

    /// Takes an edge of voice activity in.
    fn push_vad(&mut self, event: VadEvent, out: &mut TurnEvents);

    /// Time goes on; `now` is the time of the audio, so that the result depends on it alone.
    fn tick(&mut self, now: Timestamp, out: &mut TurnEvents);

    /// A new turn starts.
    fn reset(&mut self);
}

} // verus!
