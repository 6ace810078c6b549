use vstd::prelude::*;
use vstd::arithmetic::div_mod::lemma_div_is_ordered;
use vstd::arithmetic::mul::lemma_mul_inequality;

use crate::wire::{blob_messages, decode_blob, DecodedMessage};

verus! {

#[verifier::external_type_specification]
#[verifier::external_body]
pub struct ExMidi(apres::MIDI);

/// A channel event placed in a track.
#[derive(Clone, Copy, Debug, PartialEq, Eq, Structural)]
pub enum TrackEvent {
    NoteOn { channel: u8, key: u8, velocity: u8 },
    NoteOff { channel: u8, key: u8, velocity: u8 },
    ControlChange { channel: u8, controller: u8, value: u8 },
}

/// An event at an absolute tick of a track.
#[derive(Clone, Copy, Debug, PartialEq, Eq, Structural)]
pub struct TimedEvent {
    pub track: usize,
    pub tick: usize,
    pub event: TrackEvent,
}

/// Default scale from recording time to ticks.
pub const TICKS_PER_SECOND: u32 = 240;

/// The tick of an instant `t`, in milliseconds, for a session whose first
/// row came at `t0`: `ticks_per_second` ticks for each second after `t0`,
/// rounded down.
pub open spec fn tick_of(t0: int, t: int, ticks_per_second: int) -> int {
    (t - t0) * ticks_per_second / 1000
}

/// The tick of `t` counted from `t0`.
pub fn tick(t0: i64, t: i64, ticks_per_second: u32) -> (r: u128)
    requires
        t0 <= t,
    ensures
        r == tick_of(t0 as int, t as int, ticks_per_second as int),
{
    let d = (t as i128 - t0 as i128) as u128;
    assert(d * (ticks_per_second as u128) <= 0x1_0000_0000_0000_0000 * 0x1_0000_0000) by (nonlinear_arith)
        requires
            d < 0x1_0000_0000_0000_0000,
            ticks_per_second < 0x1_0000_0000,
    ;
    d * (ticks_per_second as u128) / 1000
}

/// The first tick is 0, and later instants never get an earlier tick.
pub proof fn lemma_tick_monotonic(t0: int, t1: int, t2: int, ticks_per_second: nat)
    requires
        t0 <= t1 <= t2,
    ensures
        tick_of(t0, t0, ticks_per_second as int) == 0,
        0 <= tick_of(t0, t1, ticks_per_second as int) <= tick_of(t0, t2, ticks_per_second as int),
{
    lemma_mul_inequality(0, t1 - t0, ticks_per_second as int);
    lemma_mul_inequality(t1 - t0, t2 - t0, ticks_per_second as int);
    lemma_div_is_ordered(0, (t1 - t0) * ticks_per_second, 1000);
    lemma_div_is_ordered((t1 - t0) * ticks_per_second, (t2 - t0) * ticks_per_second, 1000);
}

/// The track event that a decoded message becomes: notes move to channel 0,
/// control changes keep their channel, other messages are dropped.
pub open spec fn track_event_of(m: DecodedMessage) -> Option<TrackEvent> {
    match m {
        DecodedMessage::NoteOn { channel, key, velocity } => Some(TrackEvent::NoteOn { channel: 0, key, velocity }),
        DecodedMessage::NoteOff { channel, key, velocity } => Some(TrackEvent::NoteOff { channel: 0, key, velocity }),
        DecodedMessage::ControlChange { channel, controller, value } => Some(
            TrackEvent::ControlChange { channel, controller, value },
        ),
        DecodedMessage::Other => None,
    }
}

/// The events, all in track 0 at `tick`, that the messages of one row give,
/// in the order of the messages.
pub open spec fn row_events(msgs: Seq<DecodedMessage>, tick: usize) -> Seq<TimedEvent>
    decreases msgs.len(),
{
    if msgs.len() == 0 {
        Seq::empty()
    } else {
        row_events(msgs.drop_last(), tick) + match track_event_of(msgs.last()) {
            Some(event) => seq![TimedEvent { track: 0, tick, event }],
            None => Seq::empty(),
        }
    }
}

/// Turns the messages of one row into events of track 0 at `tick`.
pub fn timed_events(msgs: &Vec<DecodedMessage>, tick: usize) -> (r: Vec<TimedEvent>)
    ensures
        r@ == row_events(msgs@, tick),
{
    let mut out: Vec<TimedEvent> = Vec::new();
    let mut j: usize = 0;
    while j < msgs.len()
        invariant
            j <= msgs@.len(),
            out@ == row_events(msgs@.take(j as int), tick),
        decreases msgs@.len() - j,
    {
        let ev = match msgs[j] {
            DecodedMessage::NoteOn { channel: _, key, velocity } => Some(TrackEvent::NoteOn { channel: 0, key, velocity }),
            DecodedMessage::NoteOff { channel: _, key, velocity } => Some(TrackEvent::NoteOff { channel: 0, key, velocity }),
            DecodedMessage::ControlChange { channel, controller, value } => Some(
                TrackEvent::ControlChange { channel, controller, value },
            ),
            DecodedMessage::Other => None,
        };
        assert(msgs@.take(j + 1).drop_last() =~= msgs@.take(j as int));
        match ev {
            Some(event) => {
                let e = TimedEvent { track: 0, tick, event };
                assert(out@.push(e) =~= out@ + seq![e]);
                out.push(e);
            },
            None => {
                assert(out@ + Seq::<TimedEvent>::empty() =~= out@);
            },
        }
        j = j + 1;
    }
    assert(msgs@.take(msgs@.len() as int) =~= msgs@);
    out
}

/// The events inserted into a MIDI sequence, in the order of their ids, which
/// is the order of insertion.
pub uninterp spec fn midi_contents(m: apres::MIDI) -> Seq<TimedEvent>;

/// Relies on apres's `MIDI::new`: a sequence that holds no event yet.
#[verifier::external_body]
fn new_midi() -> (m: apres::MIDI)
    ensures
        midi_contents(m) == Seq::<TimedEvent>::empty(),
{
    apres::MIDI::new()
}

/// Relies on apres's `MIDI::insert_event`: it stores the event under a fresh
/// id, one above the last, at the given track and tick, and keeps every
/// earlier event. Ids come from a `u64` counter that every stored event
/// advances by one, so memory runs out long before the counter.
#[verifier::external_body]
fn insert_event(m: &mut apres::MIDI, e: TimedEvent)
    ensures
        midi_contents(*final(m)) == midi_contents(*old(m)).push(e),
{
    let event = match e.event {
        TrackEvent::NoteOn { channel, key, velocity } => apres::MIDIEvent::NoteOn(channel, key, velocity),
        TrackEvent::NoteOff { channel, key, velocity } => apres::MIDIEvent::NoteOff(channel, key, velocity),
        TrackEvent::ControlChange { channel, controller, value } => apres::MIDIEvent::ControlChange(channel, controller, value),
    };
    m.insert_event(e.track, e.tick, event);
}

/// Builds the track of one session from its rows, taken in ascending order
/// of their timestamps.
pub struct Assembler {
    pub ticks_per_second: u32,
    /// Timestamp of the first row, once one has come.
    pub first_ts: Option<i64>,
    pub midi: apres::MIDI,
}

/// The origin of the ticks once a row at `ts` has come.
pub open spec fn row_origin(first_ts: Option<i64>, ts: i64) -> i64 {
    match first_ts {
        Some(t0) => t0,
        None => ts,
    }
}

/// Whether a row at `ts` may follow what the assembler has seen: it comes no
/// earlier than the first row, and its tick fits in a `usize`.
pub open spec fn row_admissible(first_ts: Option<i64>, ts: i64, ticks_per_second: u32) -> bool {
    &&& row_origin(first_ts, ts) <= ts
    &&& tick_of(row_origin(first_ts, ts) as int, ts as int, ticks_per_second as int) <= usize::MAX
}

impl Assembler {
    /// The events assembled so far, in the order of insertion.
    pub open spec fn events(&self) -> Seq<TimedEvent> {
        midi_contents(self.midi)
    }

    /// An assembler that has seen no row.
    pub fn new(ticks_per_second: u32) -> (r: Assembler)
        ensures
            r.ticks_per_second == ticks_per_second,
            r.first_ts.is_none(),
            r.events() == Seq::<TimedEvent>::empty(),
    {
        Assembler { ticks_per_second, first_ts: None, midi: new_midi() }
    }

    /// Whether a row at `ts` can be added next.
    pub fn admits(&self, ts: i64) -> (r: bool)
        ensures
            r == row_admissible(self.first_ts, ts, self.ticks_per_second),
    {
        let t0 = match self.first_ts {
            Some(t0) => t0,
            None => ts,
        };
        t0 <= ts && tick(t0, ts, self.ticks_per_second) <= usize::MAX as u128
    }

    /// Adds the messages of one row recorded at `ts`: each becomes an event
    /// of track 0 at the row's tick, after every event already there.
    pub fn add_row(&mut self, ts: i64, bytes: &[u8])
        requires
            row_admissible(old(self).first_ts, ts, old(self).ticks_per_second),
        ensures
            final(self).ticks_per_second == old(self).ticks_per_second,
            final(self).first_ts == Some(row_origin(old(self).first_ts, ts)),
            final(self).events() == old(self).events() + row_events(
                blob_messages(bytes@),
                tick_of(row_origin(old(self).first_ts, ts) as int, ts as int, old(self).ticks_per_second as int) as usize,
            ),
    {
        let t0 = match self.first_ts {
            Some(t0) => t0,
            None => ts,
        };
        self.first_ts = Some(t0);
        let tk = tick(t0, ts, self.ticks_per_second) as usize;
        let msgs = decode_blob(bytes);
        let evs = timed_events(&msgs, tk);
        let ghost base = midi_contents(self.midi);
        let mut j: usize = 0;
        while j < evs.len()
            invariant
                j <= evs@.len(),
                self.ticks_per_second == old(self).ticks_per_second,
                self.first_ts == Some(t0),
                midi_contents(self.midi) == base + evs@.take(j as int),
            decreases evs@.len() - j,
        {
            insert_event(&mut self.midi, evs[j]);
            assert(evs@.take(j + 1) =~= evs@.take(j as int).push(evs@[j as int]));
            assert(base + evs@.take(j + 1) =~= (base + evs@.take(j as int)).push(evs@[j as int]));
            j = j + 1;
        }
        assert(evs@.take(evs@.len() as int) =~= evs@);
    }

    /// Hands the assembled sequence over for writing.
    pub fn into_midi(self) -> (r: apres::MIDI)
        ensures
            midi_contents(r) == self.events(),
    {
        self.midi
    }
}

} // verus!
