//! The per-block gain trajectory: sample-accurate event segmentation fused
//! with the smoother.
//!
//! `run_spec` is the mathematical picture of one block: walking the sample
//! index, every event whose offset has been reached takes effect first, then
//! the smoother advances one step and its value becomes the gain of that
//! frame. One smoother step per frame keeps all channels in phase.
//! `compute_gains` computes exactly that sequence.

use vstd::prelude::*;
use crate::fixed::GAIN_LIMIT;
use crate::smoother::Smoother;
use crate::events::Event;
use crate::events::apply_event_spec;
use crate::events::apply_event;
use crate::events::event_wf;
use crate::events::events_wf;
use crate::events::segment_events;
use crate::fixed::lemma_fx_lerp_bounds;

verus! {

/// Gains of frames `t..len` and the smoother state after the block, given
/// that events before index `k` have already taken effect.
pub open spec fn run_spec(s: Smoother, events: Seq<Event>, k: int, t: int, len: int) -> (Seq<
    i64,
>, Smoother)
    decreases len - t, events.len() - k,
{
    if t >= len || k > events.len() {
        (Seq::empty(), s)
    } else if k < events.len() && events[k].offset as int <= t {
        run_spec(apply_event_spec(s, events[k]), events, k + 1, t, len)
    } else {
        let s2 = s.stepped();
        let rest = run_spec(s2, events, k, t + 1, len);
        (seq![s2.current] + rest.0, rest.1)
    }
}

/// The gain applied to each frame of a block.
pub open spec fn gains_spec(s: Smoother, events: Seq<Event>, len: int) -> Seq<i64> {
    run_spec(s, events, 0, 0, len).0
}

/// The smoother state once the block is done.
pub open spec fn smoother_after_spec(s: Smoother, events: Seq<Event>, len: int) -> Smoother {
    run_spec(s, events, 0, 0, len).1
}

/// The smoother state after a whole batch of events takes effect at once
/// (the non-sample-accurate configuration).
pub open spec fn apply_all_spec(s: Smoother, events: Seq<Event>, k: int) -> Smoother
    decreases events.len() - k,
{
    if k < 0 || k >= events.len() {
        s
    } else {
        apply_all_spec(apply_event_spec(s, events[k]), events, k + 1)
    }
}

/// There is one gain per remaining frame.
pub proof fn lemma_run_len(s: Smoother, events: Seq<Event>, k: int, t: int, len: int)
    requires
        0 <= t,
        0 <= k <= events.len(),
    ensures
        run_spec(s, events, k, t, len).0.len() == if t >= len {
            0
        } else {
            len - t
        },
    decreases len - t, events.len() - k,
{
    if t >= len || k > events.len() {
    } else if k < events.len() && events[k].offset as int <= t {
        lemma_run_len(apply_event_spec(s, events[k]), events, k + 1, t, len);
    } else {
        lemma_run_len(s.stepped(), events, k, t + 1, len);
    }
}

/// Compute the gain for every frame of the block, consuming the segmenter's
/// (event, applicable-from-offset) pairs in arrival order. Effects of an
/// event at offset `t` are visible from frame `t` on and never earlier.
#[verifier::loop_isolation(false)]
pub fn compute_gains(s: &mut Smoother, events: &Vec<Event>, len: usize) -> (gains: Vec<i64>)
    requires
        old(s).wf(),
        events_wf(events@, len as int),
    ensures
        gains@ == gains_spec(*old(s), events@, len as int),
        *final(s) == smoother_after_spec(*old(s), events@, len as int),
        final(s).wf(),
        gains@.len() == len,
        forall|i: int| 0 <= i < gains@.len() ==> 0 <= #[trigger] gains@[i] <= GAIN_LIMIT,
{
    let pairs: Vec<(Event, usize)> = segment_events(events, len);
    let ghost s0 = *s;
    let ghost full = run_spec(s0, events@, 0, 0, len as int);
    proof {
        lemma_run_len(s0, events@, 0, 0, len as int);
    }
    let mut gains: Vec<i64> = Vec::new();
    let mut k: usize = 0;
    let mut t: usize = 0;
    while t < len
        invariant
            t <= len,
            k <= pairs@.len(),
            s.wf(),
            gains@.len() == t,
            forall|i: int| 0 <= i < gains@.len() ==> 0 <= #[trigger] gains@[i] <= GAIN_LIMIT,
            run_spec(*s, events@, k as int, t as int, len as int).0 == full.0.skip(t as int),
            run_spec(*s, events@, k as int, t as int, len as int).1 == full.1,
            gains@ == full.0.take(t as int),
        decreases len - t,
    {
        while k < pairs.len() && pairs[k].1 <= t
            invariant
                k <= pairs@.len(),
                s.wf(),
                run_spec(*s, events@, k as int, t as int, len as int).0 == full.0.skip(
                    t as int,
                ),
                run_spec(*s, events@, k as int, t as int, len as int).1 == full.1,
            decreases pairs@.len() - k,
        {
            let e: Event = pairs[k].0;
            proof {
                assert(e == events@[k as int]);
                assert(event_wf(e));
            }
            let ghost spre = *s;
            apply_event(s, &e);
            proof {
                assert(run_spec(spre, events@, k as int, t as int, len as int) == run_spec(
                    *s,
                    events@,
                    k as int + 1,
                    t as int,
                    len as int,
                ));
            }
            k = k + 1;
        }
        let ghost spre = *s;
        let g: i64 = s.next_value();
        gains.push(g);
        proof {
            assert(!(k < events@.len() && events@[k as int].offset as int <= t as int));
            let rest = run_spec(*s, events@, k as int, t as int + 1, len as int);
            assert(run_spec(spre, events@, k as int, t as int, len as int).0 == seq![g] + rest.0);
            assert(run_spec(spre, events@, k as int, t as int, len as int).1 == rest.1);
            assert(seq![g] + rest.0 == full.0.skip(t as int));
            assert(rest.0 =~= full.0.skip(t as int + 1)) by {
                lemma_run_len(*s, events@, k as int, t as int + 1, len as int);
                assert forall|i: int| 0 <= i < rest.0.len() implies rest.0[i] == full.0.skip(
                    t as int + 1,
                )[i] by {
                    assert(rest.0[i] == (seq![g] + rest.0)[i + 1]);
                    assert(full.0.skip(t as int)[i + 1] == full.0[t as int + 1 + i]);
                }
            }
            assert(full.0[t as int] == full.0.skip(t as int)[0]);
            assert(full.0[t as int] == g);
            assert(gains@ =~= full.0.take(t as int + 1));
        }
        t = t + 1;
    }
    proof {
        assert(run_spec(*s, events@, k as int, len as int, len as int).1 == *s);
        assert(gains@ =~= full.0);
    }
    gains
}

/// Apply a whole event batch to the smoother at once: the configuration in
/// which segmentation is skipped and every event takes effect at the block
/// start.
pub fn apply_all(s: &mut Smoother, events: &Vec<Event>)
    requires
        old(s).wf(),
        forall|i: int| 0 <= i < events@.len() ==> event_wf(#[trigger] events@[i]),
    ensures
        *final(s) == apply_all_spec(*old(s), events@, 0),
        final(s).wf(),
{
    let ghost s0 = *s;
    let n: usize = events.len();
    let mut k: usize = 0;
    while k < n
        invariant
            k <= n,
            n == events@.len(),
            s.wf(),
            forall|i: int| 0 <= i < events@.len() ==> event_wf(#[trigger] events@[i]),
            apply_all_spec(*s, events@, k as int) == apply_all_spec(s0, events@, 0),
        decreases n - k,
    {
        let e: Event = events[k];
        let ghost spre = *s;
        apply_event(s, &e);
        proof {
            assert(apply_all_spec(spre, events@, k as int) == apply_all_spec(
                *s,
                events@,
                k as int + 1,
            ));
        }
        k = k + 1;
    }
}

/// Law: with no events in the block, the trajectory is a monotonic
/// interpolation: every per-frame gain lies between the pre-block smoothed
/// value and the target, and the gains never move away from the target.
pub proof fn lemma_gain_trajectory_monotone(s: Smoother, len: int)
    requires
        s.wf(),
    ensures
        s.current <= s.target ==> forall|i: int, j: int|
            0 <= i <= j < gains_spec(s, Seq::<Event>::empty(), len).len() ==> s.current <= #[trigger] gains_spec(
                s,
                Seq::<Event>::empty(),
                len,
            )[i] <= #[trigger] gains_spec(s, Seq::<Event>::empty(), len)[j] <= s.target,
        s.target <= s.current ==> forall|i: int, j: int|
            0 <= i <= j < gains_spec(s, Seq::<Event>::empty(), len).len() ==> s.target <= #[trigger] gains_spec(
                s,
                Seq::<Event>::empty(),
                len,
            )[j] <= #[trigger] gains_spec(s, Seq::<Event>::empty(), len)[i] <= s.current,
{
    lemma_run_no_events_bounds(s, 0, len);
}

/// Induction behind the monotonicity law, over the tail of the block.
proof fn lemma_run_no_events_bounds(s: Smoother, t: int, len: int)
    requires
        s.wf(),
    ensures
        s.current <= s.target ==> forall|i: int, j: int|
            0 <= i <= j < run_spec(s, Seq::<Event>::empty(), 0, t, len).0.len()
                ==> s.current <= #[trigger] run_spec(s, Seq::<Event>::empty(), 0, t, len).0[i]
                <= #[trigger] run_spec(s, Seq::<Event>::empty(), 0, t, len).0[j] <= s.target,
        s.target <= s.current ==> forall|i: int, j: int|
            0 <= i <= j < run_spec(s, Seq::<Event>::empty(), 0, t, len).0.len()
                ==> s.target <= #[trigger] run_spec(s, Seq::<Event>::empty(), 0, t, len).0[j]
                <= #[trigger] run_spec(s, Seq::<Event>::empty(), 0, t, len).0[i] <= s.current,
    decreases len - t,
{
    if t >= len {
    } else {
        let s2 = s.stepped();
        lemma_fx_lerp_bounds(s.current as int, s.target as int, s.weight as int);
        assert(s2.wf());
        assert(s2.target == s.target);
        lemma_run_no_events_bounds(s2, t + 1, len);
        if t >= 0 {
            lemma_run_len(s, Seq::<Event>::empty(), 0, t, len);
            lemma_run_len(s2, Seq::<Event>::empty(), 0, t + 1, len);
        }
        let g = run_spec(s, Seq::<Event>::empty(), 0, t, len).0;
        let rest = run_spec(s2, Seq::<Event>::empty(), 0, t + 1, len).0;
        assert(g == seq![s2.current] + rest);
        assert forall|i: int| 0 <= i < g.len() implies g[i] == if i == 0 {
            s2.current
        } else {
            rest[i - 1]
        } by {}
    }
}

/// Law: events are never retroactive. If every event of the batch applies
/// from offset `m` on, then every frame before `m` gets exactly the gain it
/// would get with no events at all.
pub proof fn lemma_events_not_retroactive(s: Smoother, events: Seq<Event>, len: int, m: int)
    requires
        0 <= m,
        forall|i: int| 0 <= i < events.len() ==> m <= #[trigger] events[i].offset as int,
    ensures
        forall|i: int|
            0 <= i < m && i < len ==> gains_spec(s, events, len)[i] == #[trigger] gains_spec(
                s,
                Seq::<Event>::empty(),
                len,
            )[i],
{
    lemma_prefix_isolated(s, events, 0, 0, len, m);
}

/// Induction behind the no-retroactivity law: as long as the sample index
/// has not reached the earliest event offset, both runs advance the smoother
/// identically.
proof fn lemma_prefix_isolated(s: Smoother, events: Seq<Event>, k: int, t: int, len: int, m: int)
    requires
        0 <= t,
        0 <= k <= events.len(),
        t <= m,
        forall|i: int| 0 <= i < events.len() ==> m <= #[trigger] events[i].offset as int,
    ensures
        forall|i: int|
            0 <= i < m - t && t + i < len ==> run_spec(s, events, k, t, len).0[i] == #[trigger] run_spec(
                s,
                Seq::<Event>::empty(),
                0,
                t,
                len,
            ).0[i],
    decreases len - t,
{
    if t >= len || t >= m {
    } else {
        assert(!(k < events.len() && events[k].offset as int <= t));
        let s2 = s.stepped();
        lemma_prefix_isolated(s2, events, k, t + 1, len, m);
        lemma_run_len(s, events, k, t, len);
        lemma_run_len(s, Seq::<Event>::empty(), 0, t, len);
        lemma_run_len(s2, events, k, t + 1, len);
        lemma_run_len(s2, Seq::<Event>::empty(), 0, t + 1, len);
        let g = run_spec(s, events, k, t, len).0;
        let ge = run_spec(s, Seq::<Event>::empty(), 0, t, len).0;
        let rest = run_spec(s2, events, k, t + 1, len).0;
        let reste = run_spec(s2, Seq::<Event>::empty(), 0, t + 1, len).0;
        assert(g == seq![s2.current] + rest);
        assert(ge == seq![s2.current] + reste);
        assert forall|i: int| 0 <= i < m - t && t + i < len implies g[i] == ge[i] by {
            if i > 0 {
                assert(g[i] == rest[i - 1]);
                assert(ge[i] == reste[i - 1]);
            }
        }
    }
}

} // verus!
