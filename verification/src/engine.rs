//! Processing Orchestrator: the per-block algorithm.
//!
//! One call resolves the requested port's channel buffers, turns the event
//! batch into a per-frame gain trajectory (sample-accurate or whole-batch,
//! by configuration), scales every frame of every participating channel by
//! the one shared trajectory, and — while an observer is active — feeds the
//! block's mean absolute amplitude into the decaying peak estimate.
//! Declining is all-or-nothing: a declined call leaves the block, the
//! smoother and the meter exactly as they were.

use vstd::prelude::*;
use crate::fixed::AMP_LIMIT;
use crate::fixed::FX_ONE;
use crate::fixed::GAIN_LIMIT;
use crate::fixed::SAMPLE_LIMIT;
use crate::fixed::fx_mul;
use crate::fixed::fx_mul_spec;
use crate::fixed::fx_pow;
use crate::fixed::fx_pow_spec;
use crate::smoother::Smoother;
use crate::meter::decay_weight;
use crate::meter::is_decay_weight;
use crate::meter::meter_update;
use crate::meter::meter_update_spec;
use crate::events::Event;
use crate::events::events_wf;
use crate::block::AudioPort;
use crate::block::Block;
use crate::block::Channel;
use crate::block::Pairing;
use crate::block::ProcessError;
use crate::block::resolve_outcome;
use crate::block::resolve_port;
use crate::block::writable;
use crate::trajectory::apply_all;
use crate::trajectory::apply_all_spec;
use crate::trajectory::compute_gains;
use crate::trajectory::gains_spec;
use crate::trajectory::smoother_after_spec;
use crate::amplitude::amplitude_spec;
use crate::amplitude::port_amplitude;

verus! {

/// Milliseconds within which the peak meter falls to a quarter once the
/// signal goes silent.
pub const PEAK_METER_DECAY_MS: u32 = 150;

/// Milliseconds of the gain smoother's time constant.
pub const SMOOTHING_MS: u32 = 50;

/// Per-call configuration, decided outside the audio path.
#[derive(Clone, Copy, PartialEq, Eq, Structural, Debug)]
pub struct Config {
    /// Honor exact event offsets (sample-accurate automation) instead of
    /// applying the whole batch at the block start.
    pub sample_accurate: bool,
    /// Is an observer (the editor) watching the meter? The meter update is
    /// skipped entirely otherwise.
    pub observer_active: bool,
    /// Ask the host to keep calling through prolonged silence.
    pub keep_alive: bool,
}

/// What the host should do after this block. Neither variant implies
/// termination; an unrecoverable error is a declined call instead.
#[derive(Clone, Copy, PartialEq, Eq, Structural, Debug)]
pub enum ProcessStatus {
    /// The host may suspend processing while the signal stays silent.
    Normal,
    /// Keep processing blocks regardless of silence.
    KeepAlive,
}

/// The gain each frame receives under a configuration: the sample-accurate
/// trajectory, or the trajectory after the whole batch took effect at once.
pub open spec fn traj_gains(
    s: Smoother,
    events: Seq<Event>,
    len: int,
    sample_accurate: bool,
) -> Seq<i64> {
    if sample_accurate {
        gains_spec(s, events, len)
    } else {
        gains_spec(apply_all_spec(s, events, 0), Seq::<Event>::empty(), len)
    }
}

/// The smoother state after the block under a configuration.
pub open spec fn traj_smoother(
    s: Smoother,
    events: Seq<Event>,
    len: int,
    sample_accurate: bool,
) -> Smoother {
    if sample_accurate {
        smoother_after_spec(s, events, len)
    } else {
        smoother_after_spec(apply_all_spec(s, events, 0), Seq::<Event>::empty(), len)
    }
}

/// One channel after gain application, against the resolved signal it
/// carried in (its writable buffer).
pub open spec fn gained_channel(oc: Channel, nc: Channel, gains: Seq<i64>) -> bool {
    &&& nc.pairing == oc.pairing
    &&& nc.input == oc.input
    &&& if writable(oc.pairing) {
        nc.output@.len() == oc.output@.len() && forall|t: int|
            0 <= t < oc.output@.len() ==> #[trigger] nc.output@[t] as int == fx_mul_spec(
                oc.output@[t] as int,
                gains[t] as int,
            )
    } else {
        nc.output == oc.output
    }
}

/// One channel after a whole processed block, against the block as the host
/// handed it over: the in-place buffer is scaled where it stands, an
/// input-output channel's output is its input scaled, excluded channels are
/// untouched.
pub open spec fn processed_channel(oc: Channel, nc: Channel, gains: Seq<i64>) -> bool {
    match oc.pairing {
        Pairing::InputOnly => nc.pairing == oc.pairing && nc.input == oc.input && nc.output
            == oc.output,
        Pairing::OutputOnly => nc.pairing == oc.pairing && nc.input == oc.input && nc.output
            == oc.output,
        Pairing::InPlace => nc.pairing == oc.pairing && nc.input == oc.input
            && nc.output@.len() == oc.output@.len() && forall|t: int|
            0 <= t < oc.output@.len() ==> #[trigger] nc.output@[t] as int == fx_mul_spec(
                oc.output@[t] as int,
                gains[t] as int,
            ),
        Pairing::InputOutput => nc.pairing == oc.pairing && nc.input == oc.input
            && nc.output@.len() == oc.input@.len() && forall|t: int|
            0 <= t < oc.input@.len() ==> #[trigger] nc.output@[t] as int == fx_mul_spec(
                oc.input@[t] as int,
                gains[t] as int,
            ),
    }
}

/// Scale every frame of every participating channel of a resolved port by
/// the per-frame gains; one shared trajectory keeps channels in phase.
#[verifier::loop_isolation(false)]
pub fn apply_gains(ap: &mut AudioPort, gains: &Vec<i64>, len: usize)
    requires
        old(ap).wf(len as int, SAMPLE_LIMIT as int),
        gains@.len() == len,
        forall|i: int| 0 <= i < gains@.len() ==> 0 <= #[trigger] gains@[i] <= GAIN_LIMIT,
    ensures
        final(ap).channels@.len() == old(ap).channels@.len(),
        forall|c: int|
            0 <= c < old(ap).channels@.len() ==> gained_channel(
                old(ap).channels@[c],
                #[trigger] final(ap).channels@[c],
                gains@,
            ),
        final(ap).wf(len as int, AMP_LIMIT as int),
{
    let ghost oa = *ap;
    let nch: usize = ap.channels.len();
    let mut c: usize = 0;
    while c < nch
        invariant
            c <= nch,
            ap.channels@.len() == nch,
            forall|k: int|
                0 <= k < c ==> gained_channel(oa.channels@[k], #[trigger] ap.channels@[k], gains@)
                    && (#[trigger] ap.channels@[k]).wf(len as int, AMP_LIMIT as int),
            forall|k: int| c <= k < nch ==> #[trigger] ap.channels@[k] == oa.channels@[k],
        decreases nch - c,
    {
        let ghost apch0 = ap.channels@;
        let mut ch: Channel = ap.channels.remove(c);
        assert(ch.wf(len as int, SAMPLE_LIMIT as int));
        let pr: Pairing = ch.pairing;
        if pr == Pairing::InPlace || pr == Pairing::InputOutput {
            let ghost och = ch;
            let mut t: usize = 0;
            while t < len
                invariant
                    t <= len,
                    ch.pairing == och.pairing,
                    ch.input == och.input,
                    ch.output@.len() == och.output@.len(),
                    och.output@.len() == len,
                    forall|k: int|
                        0 <= k < t ==> #[trigger] ch.output@[k] as int == fx_mul_spec(
                            och.output@[k] as int,
                            gains@[k] as int,
                        ) && -AMP_LIMIT <= ch.output@[k] <= AMP_LIMIT,
                    forall|k: int| t <= k < len ==> #[trigger] ch.output@[k] == och.output@[k],
                decreases len - t,
            {
                let v: i64 = ch.output[t];
                let g: i64 = gains[t];
                let nv: i64 = fx_mul(v, g);
                ch.output[t] = nv;
                t = t + 1;
            }
        }
        ap.channels.insert(c, ch);
        proof {
            assert(ap.channels@ =~= apch0.update(c as int, ch));
        }
        c = c + 1;
    }
}

/// The audio-path state that lives across blocks: the gain smoother, the
/// published peak estimate, and the decay weight derived at initialization.
pub struct Engine {
    /// The gain parameter's smoothing state, shared by all channels.
    pub smoother: Smoother,
    /// The decaying peak estimate an observer reads, Q16.16.
    pub meter: i64,
    /// Per-block decay weight of the peak estimate.
    pub decay_weight: i64,
}

impl Engine {
    /// The engine's invariant: smoother well-formed, meter within the
    /// amplitude range, decay weight a ratio.
    pub open spec fn wf(self) -> bool {
        &&& self.smoother.wf()
        &&& 0 <= self.meter <= AMP_LIMIT
        &&& 0 <= self.decay_weight <= FX_ONE
    }

    /// A fresh engine: converged at unity gain, silent meter, and no decay
    /// until a sample rate is known.
    pub fn new() -> (e: Engine)
        ensures
            e.wf(),
            e.smoother == (Smoother { current: FX_ONE, target: FX_ONE, weight: FX_ONE }),
            e.meter == 0,
            e.decay_weight == FX_ONE,
    {
        Engine { smoother: Smoother::new(), meter: 0, decay_weight: FX_ONE }
    }

    /// Derive the meter's decay weight and the smoother's coefficient for a
    /// sample rate; called at initialization and on every rate change.
    pub fn initialize(&mut self, sample_rate: u32)
        requires
            old(self).wf(),
        ensures
            final(self).wf(),
            is_decay_weight(
                sample_rate as int,
                PEAK_METER_DECAY_MS as int,
                final(self).decay_weight as int,
            ),
            is_decay_weight(
                sample_rate as int,
                SMOOTHING_MS as int,
                final(self).smoother.weight as int,
            ),
            final(self).smoother.current == old(self).smoother.current,
            final(self).smoother.target == old(self).smoother.target,
            final(self).meter == old(self).meter,
    {
        self.decay_weight = decay_weight(sample_rate, PEAK_METER_DECAY_MS);
        self.smoother.weight = decay_weight(sample_rate, SMOOTHING_MS);
    }

    /// The narrow, host-facing setter for the gain target; only the
    /// smoothing target moves, from the next produced value on.
    pub fn set_gain_target(&mut self, target: i64)
        requires
            old(self).wf(),
            0 <= target <= GAIN_LIMIT,
        ensures
            final(self).smoother == (Smoother { target: target, ..old(self).smoother }),
            final(self).meter == old(self).meter,
            final(self).decay_weight == old(self).decay_weight,
            final(self).wf(),
    {
        self.smoother.set_target(target);
    }

    /// Process one block. See the module description; the contract pins the
    /// outcome: the exact error for a missing port or wrong sample format
    /// (with nothing changed), or every output sample equal to its source
    /// scaled by the per-frame gain trajectory, the smoother advanced
    /// accordingly, and the meter updated exactly when an observer watches a
    /// non-empty block.
    pub fn process(
        &mut self,
        block: &mut Block,
        events: &Vec<Event>,
        port: usize,
        cfg: &Config,
    ) -> (r: Result<ProcessStatus, ProcessError>)
        requires
            old(self).wf(),
            old(block).wf(SAMPLE_LIMIT as int),
            events_wf(events@, old(block).len as int),
        ensures
            final(self).wf(),
            r == (match resolve_outcome(*old(block), port as int) {
                Ok(u) => Ok::<ProcessStatus, ProcessError>(
                    if cfg.keep_alive {
                        ProcessStatus::KeepAlive
                    } else {
                        ProcessStatus::Normal
                    },
                ),
                Err(e) => Err::<ProcessStatus, ProcessError>(e),
            }),
            r is Err ==> *final(block) == *old(block) && *final(self) == *old(self),
            r is Ok ==> final(self).smoother == traj_smoother(
                old(self).smoother,
                events@,
                old(block).len as int,
                cfg.sample_accurate,
            ),
            r is Ok ==> final(block).format == old(block).format && final(block).len == old(
                block,
            ).len && final(block).ports@.len() == old(block).ports@.len(),
            r is Ok ==> forall|q: int|
                0 <= q < old(block).ports@.len() && q != port ==> final(block).ports@[q] == old(
                    block,
                ).ports@[q],
            r is Ok ==> final(block).ports@[port as int].channels@.len() == old(
                block,
            ).ports@[port as int].channels@.len(),
            r is Ok ==> forall|c: int|
                0 <= c < old(block).ports@[port as int].channels@.len() ==> processed_channel(
                    old(block).ports@[port as int].channels@[c],
                    #[trigger] final(block).ports@[port as int].channels@[c],
                    traj_gains(
                        old(self).smoother,
                        events@,
                        old(block).len as int,
                        cfg.sample_accurate,
                    ),
                ),
            r is Ok ==> final(block).wf(AMP_LIMIT as int),
            r is Ok && cfg.observer_active && old(block).len > 0 ==> final(self).meter as int
                == meter_update_spec(
                old(self).meter as int,
                amplitude_spec(
                    final(block).ports@[port as int].channels@,
                    old(block).len as int,
                ),
                fx_pow_spec(old(self).decay_weight as int, old(block).len as nat),
            ),
            r is Ok && !(cfg.observer_active && old(block).len > 0) ==> final(self).meter == old(
                self,
            ).meter,
            final(self).decay_weight == old(self).decay_weight,
    {
        let len: usize = block.len;
        let res: Result<(), ProcessError> = resolve_port(block, port);
        match res {
            Err(e) => {
                return Err(e);
            },
            Ok(u) => (),
        }
        let ghost mid = *block;
        let ghost ob = *old(block);
        let ghost s0 = self.smoother;

        let gains: Vec<i64>;
        if cfg.sample_accurate {
            gains = compute_gains(&mut self.smoother, events, len);
        } else {
            apply_all(&mut self.smoother, events);
            let noevents: Vec<Event> = Vec::new();
            proof {
                assert(noevents@ =~= Seq::<Event>::empty());
            }
            gains = compute_gains(&mut self.smoother, &noevents, len);
        }
        let ghost gs = traj_gains(s0, events@, len as int, cfg.sample_accurate);
        proof {
            assert(gains@ == gs);
        }

        let mut ap: AudioPort = block.ports.remove(port);
        apply_gains(&mut ap, &gains, len);
        let amp: i64 = port_amplitude(&ap, len);
        block.ports.insert(port, ap);

        if cfg.observer_active && len > 0 {
            // the decay weight is per sample frame; one block decays by its
            // length's worth of frames, whatever the block size
            let wl: i64 = fx_pow(self.decay_weight, len as u64);
            self.meter = meter_update(self.meter, amp, wl);
        }

        proof {
            assert forall|q: int|
                0 <= q < ob.ports@.len() && q != port implies block.ports@[q] == ob.ports@[q] by {
                assert(mid.ports@[q] == ob.ports@[q]);
                if q < port {
                    assert(block.ports@[q] == mid.ports@.remove(port as int)[q]);
                } else {
                    assert(block.ports@[q] == mid.ports@.remove(port as int)[q - 1]);
                }
            }
            assert(block.ports@[port as int] == ap);
            assert forall|c: int|
                0 <= c < ob.ports@[port as int].channels@.len() implies processed_channel(
                ob.ports@[port as int].channels@[c],
                block.ports@[port as int].channels@[c],
                gs,
            ) by {
                let oc = ob.ports@[port as int].channels@[c];
                let mc = mid.ports@[port as int].channels@[c];
                let nc = ap.channels@[c];
                assert(crate::block::resolved_channel(oc, mc));
                assert(gained_channel(mc, nc, gains@));
                if oc.pairing == Pairing::InputOutput {
                    assert(mc.output@ == oc.input@);
                    assert(forall|t: int|
                        0 <= t < oc.input@.len() ==> #[trigger] mc.output@[t] == oc.input@[t]);
                }
            }
            assert(block.wf(AMP_LIMIT as int)) by {
                assert forall|p: int|
                    0 <= p < block.ports@.len() implies (#[trigger] block.ports@[p]).wf(
                    block.len as int,
                    AMP_LIMIT as int,
                ) by {
                    if p != port {
                        assert(block.ports@[p] == mid.ports@[p]);
                        assert(mid.ports@[p].wf(mid.len as int, SAMPLE_LIMIT as int));
                        assert forall|k: int|
                            0 <= k < mid.ports@[p].channels@.len() implies (
                        #[trigger] mid.ports@[p].channels@[k]).wf(
                            mid.len as int,
                            AMP_LIMIT as int,
                        ) by {}
                    }
                }
            }
        }

        if cfg.keep_alive {
            Ok(ProcessStatus::KeepAlive)
        } else {
            Ok(ProcessStatus::Normal)
        }
    }
}

} // verus!
