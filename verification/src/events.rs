//! Timestamped control events and the event segmenter.
//!
//! Events arrive once per block, pre-sorted by sample offset, every offset
//! inside the block. The segmenter pairs each event with the offset from
//! which it applies, in arrival order, one pass per block. Dispatch goes by
//! category: a parameter change feeds the gain smoother's target, note
//! events and unrecognized categories are deliberate no-ops so that host
//! extensions never make processing fail.

use vstd::prelude::*;
use crate::fixed::GAIN_LIMIT;
use crate::smoother::Smoother;

verus! {

/// The control message categories the core distinguishes.
#[derive(Clone, Copy, PartialEq, Eq, Structural, Debug)]
pub enum EventKind {
    /// Parameter change: a new smoothing target for the gain, Q16.16.
    GainTarget { target: i64 },
    /// Note start; the gain core keeps no note state.
    NoteOn { note: u8, velocity: u8 },
    /// Note end; the gain core keeps no note state.
    NoteOff { note: u8 },
    /// A category this core does not implement; skipped, never an error.
    Unrecognized,
}

/// A timestamped control message with a sample offset inside the block.
#[derive(Clone, Copy, PartialEq, Eq, Structural, Debug)]
pub struct Event {
    /// The sample offset, in [0, block length), at which the event applies.
    pub offset: usize,
    /// The message itself.
    pub kind: EventKind,
}

/// A single event is well-formed when any gain target it carries lies in the
/// declared parameter range.
pub open spec fn event_wf(e: Event) -> bool {
    match e.kind {
        EventKind::GainTarget { target } => 0 <= target <= GAIN_LIMIT,
        _ => true,
    }
}

/// An event batch is well-formed for a block: every event well-formed, every
/// offset inside the block, offsets non-decreasing across the batch.
pub open spec fn events_wf(es: Seq<Event>, len: int) -> bool {
    &&& forall|i: int| 0 <= i < es.len() ==> event_wf(#[trigger] es[i]) && (es[i].offset as int)
        < len
    &&& forall|i: int, j: int|
        0 <= i <= j < es.len() ==> (#[trigger] es[i].offset) <= (#[trigger] es[j].offset)
}

/// The effect of one event on the smoothing state: a parameter change moves
/// the target, everything else leaves the state untouched.
pub open spec fn apply_event_spec(s: Smoother, e: Event) -> Smoother {
    match e.kind {
        EventKind::GainTarget { target } => Smoother { target: target, ..s },
        _ => s,
    }
}

/// Dispatch one event to its handler. Note events and unrecognized
/// categories are no-ops by contract, not by accident.
pub fn apply_event(s: &mut Smoother, e: &Event)
    requires
        old(s).wf(),
        event_wf(*e),
    ensures
        *final(s) == apply_event_spec(*old(s), *e),
        final(s).wf(),
{
    match e.kind {
        EventKind::GainTarget { target } => s.set_target(target),
        EventKind::NoteOn { .. } => (),
        EventKind::NoteOff { .. } => (),
        EventKind::Unrecognized => (),
    }
}

/// Check a batch against `events_wf`, for callers that receive events from
/// an unverified host boundary.
pub fn events_well_formed(events: &Vec<Event>, len: usize) -> (b: bool)
    ensures
        b == events_wf(events@, len as int),
{
    let n: usize = events.len();
    let mut i: usize = 0;
    while i < n
        invariant
            i <= n,
            n == events@.len(),
            forall|k: int| 0 <= k < i ==> event_wf(#[trigger] events@[k]) && (
            events@[k].offset as int) < len,
            forall|k: int, l: int|
                0 <= k <= l < i ==> (#[trigger] events@[k].offset) <= (
                #[trigger] events@[l].offset),
        decreases n - i,
    {
        let e: Event = events[i];
        if e.offset >= len {
            return false;
        }
        match e.kind {
            EventKind::GainTarget { target } => {
                if target < 0 || target > GAIN_LIMIT {
                    return false;
                }
            },
            _ => (),
        }
        if i > 0 {
            let prev: Event = events[i - 1];
            if prev.offset > e.offset {
                return false;
            }
        }
        assert(forall|k: int, l: int|
            0 <= k <= l < i + 1 ==> (#[trigger] events@[k].offset) <= (
            #[trigger] events@[l].offset)) by {
            assert(forall|k: int|
                0 <= k < i ==> (#[trigger] events@[k].offset) <= events@[i - 1].offset);
        }
        i = i + 1;
    }
    true
}

/// Event Segmenter: pair each event with the sample offset from which it
/// applies, preserving arrival order. Finite, one pass, no state carried
/// across blocks. All effects of a pair apply to samples at or after its
/// offset and to none before it; the processing loop consumes the pairs in
/// order.
pub fn segment_events(events: &Vec<Event>, len: usize) -> (pairs: Vec<(Event, usize)>)
    requires
        events_wf(events@, len as int),
    ensures
        pairs@.len() == events@.len(),
        forall|i: int|
            0 <= i < pairs@.len() ==> #[trigger] pairs@[i] == (events@[i], events@[i].offset),
{
    let n: usize = events.len();
    let mut pairs: Vec<(Event, usize)> = Vec::new();
    let mut i: usize = 0;
    while i < n
        invariant
            i <= n,
            n == events@.len(),
            pairs@.len() == i,
            forall|k: int|
                0 <= k < i ==> #[trigger] pairs@[k] == (events@[k], events@[k].offset),
        decreases n - i,
    {
        let e: Event = events[i];
        pairs.push((e, e.offset));
        i = i + 1;
    }
    pairs
}

} // verus!
