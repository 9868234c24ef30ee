//! Audio blocks and the channel pairing resolver.
//!
//! A block carries, per port, one buffer pair per channel, classified by how
//! input and output relate for this block: input-only and output-only
//! channels take no part in processing, an in-place channel shares one
//! buffer, an input-output channel has distinct buffers. Resolution gives
//! every participating channel a writable buffer that starts with the
//! channel's signal: the in-place buffer is used as it stands (no copy), an
//! input-output channel gets its input copied into its output first — the
//! resolver's only side effect.

use vstd::prelude::*;
use crate::fixed::SAMPLE_LIMIT;

verus! {

/// Most channels one port may declare.
pub const MAX_CHANNELS: usize = 65536;

/// Most sample frames one block may carry.
pub const MAX_BLOCK_LEN: usize = 1000000000;

/// Negotiated sample representation at the host boundary. The core expects
/// 32-bit floating point there; its fixed-point view of those samples is
/// what the buffers hold.
#[derive(Clone, Copy, PartialEq, Eq, Structural, Debug)]
pub enum SampleFormat {
    Float32,
    Float64,
    Int16,
}

/// How a channel's input and output buffers relate during one block.
#[derive(Clone, Copy, PartialEq, Eq, Structural, Debug)]
pub enum Pairing {
    /// A readable buffer with no output destination; excluded from
    /// processing.
    InputOnly,
    /// A writable buffer with no readable source; excluded from processing.
    OutputOnly,
    /// Input and output alias one shared buffer.
    InPlace,
    /// Input and output are distinct buffers.
    InputOutput,
}

/// Why a process call was declined. Declining is clean: the caller's block
/// and the engine state are left exactly as they were.
#[derive(Clone, Copy, PartialEq, Eq, Structural, Debug)]
pub enum ProcessError {
    /// The requested port index is not offered.
    PortUnavailable,
    /// The negotiated sample representation is not the expected one.
    UnsupportedSampleFormat,
}

/// One channel of one port: its pairing classification and its buffers.
/// An in-place channel's shared storage is held in `output`.
pub struct Channel {
    /// The classification, fixed for the duration of the block.
    pub pairing: Pairing,
    /// The readable buffer; empty unless the pairing declares one of its
    /// own.
    pub input: Vec<i64>,
    /// The writable buffer (or the shared one, for in-place).
    pub output: Vec<i64>,
}

/// One audio port: an ordered set of channels.
pub struct AudioPort {
    /// The port's channels.
    pub channels: Vec<Channel>,
}

/// One block of audio as the host hands it over.
pub struct Block {
    /// The negotiated sample representation.
    pub format: SampleFormat,
    /// The number of sample frames in this block.
    pub len: usize,
    /// The offered ports.
    pub ports: Vec<AudioPort>,
}

/// Does this pairing take part in processing (does it have a writable
/// signal buffer)?
pub open spec fn writable(p: Pairing) -> bool {
    p == Pairing::InPlace || p == Pairing::InputOutput
}

impl Channel {
    /// Buffer lengths agree with the pairing and the block length, and all
    /// samples lie within `bound`.
    pub open spec fn wf(self, len: int, bound: int) -> bool {
        &&& (match self.pairing {
            Pairing::InputOnly => self.input@.len() == len && self.output@.len() == 0,
            Pairing::OutputOnly => self.input@.len() == 0 && self.output@.len() == len,
            Pairing::InPlace => self.input@.len() == 0 && self.output@.len() == len,
            Pairing::InputOutput => self.input@.len() == len && self.output@.len() == len,
        })
        &&& forall|i: int|
            0 <= i < self.input@.len() ==> -bound <= #[trigger] self.input@[i] <= bound
        &&& forall|i: int|
            0 <= i < self.output@.len() ==> -bound <= #[trigger] self.output@[i] <= bound
    }
}

impl AudioPort {
    /// All channels well-formed and not more of them than the core accepts.
    pub open spec fn wf(self, len: int, bound: int) -> bool {
        &&& self.channels@.len() <= MAX_CHANNELS
        &&& forall|c: int|
            0 <= c < self.channels@.len() ==> (#[trigger] self.channels@[c]).wf(len, bound)
    }

    /// Does any channel of this port take part in processing?
    pub open spec fn has_writable(self) -> bool {
        exists|c: int|
            0 <= c < self.channels@.len() && writable((#[trigger] self.channels@[c]).pairing)
    }
}

impl Block {
    /// Every port well-formed for this block's length, and the length within
    /// what the core accepts.
    pub open spec fn wf(self, bound: int) -> bool {
        &&& self.len <= MAX_BLOCK_LEN
        &&& forall|p: int|
            0 <= p < self.ports@.len() ==> (#[trigger] self.ports@[p]).wf(self.len as int, bound)
    }
}

/// How one channel looks after buffer resolution: an input-output channel's
/// output now equals its input, everything else is untouched. In particular
/// the in-place buffer is exactly the one that came in.
pub open spec fn resolved_channel(oc: Channel, nc: Channel) -> bool {
    if oc.pairing == Pairing::InputOutput {
        &&& nc.pairing == oc.pairing
        &&& nc.input == oc.input
        &&& nc.output@ == oc.input@
    } else {
        nc == oc
    }
}

/// The exact outcome resolution owes for a given block and port index.
pub open spec fn resolve_outcome(b: Block, port: int) -> Result<(), ProcessError> {
    if port < 0 || port >= b.ports@.len() {
        Err(ProcessError::PortUnavailable)
    } else if b.format != SampleFormat::Float32 {
        Err(ProcessError::UnsupportedSampleFormat)
    } else if !b.ports@[port].has_writable() {
        Err(ProcessError::PortUnavailable)
    } else {
        Ok(())
    }
}

/// Channel Pairing Resolver: give every participating channel of the
/// requested port a writable buffer holding the channel's signal. Declines
/// with `PortUnavailable` when the port is not offered or offers no usable
/// audio path, with `UnsupportedSampleFormat` when the representation is not
/// 32-bit float; declining leaves the block untouched.
pub fn resolve_port(block: &mut Block, port: usize) -> (r: Result<(), ProcessError>)
    requires
        old(block).wf(SAMPLE_LIMIT as int),
    ensures
        r == resolve_outcome(*old(block), port as int),
        r is Err ==> *final(block) == *old(block),
        r is Ok ==> final(block).format == old(block).format && final(block).len == old(
            block,
        ).len && final(block).ports@.len() == old(block).ports@.len(),
        r is Ok ==> forall|q: int|
            0 <= q < old(block).ports@.len() && q != port ==> final(block).ports@[q] == old(
                block,
            ).ports@[q],
        r is Ok ==> final(block).ports@[port as int].channels@.len() == old(
            block,
        ).ports@[port as int].channels@.len(),
        r is Ok ==> forall|c: int|
            0 <= c < old(block).ports@[port as int].channels@.len() ==> resolved_channel(
                old(block).ports@[port as int].channels@[c],
                #[trigger] final(block).ports@[port as int].channels@[c],
            ),
        r is Ok ==> final(block).wf(SAMPLE_LIMIT as int),
{
    if port >= block.ports.len() {
        return Err(ProcessError::PortUnavailable);
    }
    if !(block.format == SampleFormat::Float32) {
        return Err(ProcessError::UnsupportedSampleFormat);
    }

    // First pass, read only: is there any usable audio path?
    let nch: usize = block.ports[port].channels.len();
    let mut found: bool = false;
    let mut c: usize = 0;
    while c < nch
        invariant
            c <= nch,
            port < block.ports@.len(),
            nch == block.ports@[port as int].channels@.len(),
            found == exists|k: int|
                0 <= k < c && writable(
                    (#[trigger] block.ports@[port as int].channels@[k]).pairing,
                ),
        decreases nch - c,
    {
        let pr: Pairing = block.ports[port].channels[c].pairing;
        if pr == Pairing::InPlace || pr == Pairing::InputOutput {
            found = true;
        }
        c = c + 1;
    }
    if !found {
        return Err(ProcessError::PortUnavailable);
    }

    // Second pass: copy input into output for each input-output channel.
    let ghost ob = *block;
    let mut ap: AudioPort = block.ports.remove(port);
    let nch: usize = ap.channels.len();
    let mut c: usize = 0;
    while c < nch
        invariant
            c <= nch,
            port < ob.ports@.len(),
            ap.channels@.len() == nch,
            nch == ob.ports@[port as int].channels@.len(),
            ob.wf(SAMPLE_LIMIT as int),
            block.format == ob.format,
            block.len == ob.len,
            ob.len <= MAX_BLOCK_LEN,
            block.ports@ == ob.ports@.remove(port as int),
            forall|k: int|
                0 <= k < c ==> resolved_channel(
                    ob.ports@[port as int].channels@[k],
                    #[trigger] ap.channels@[k],
                ) && (#[trigger] ap.channels@[k]).wf(ob.len as int, SAMPLE_LIMIT as int),
            forall|k: int|
                c <= k < nch ==> #[trigger] ap.channels@[k] == ob.ports@[port as int].channels@[k],
        decreases nch - c,
    {
        let ghost apch0 = ap.channels@;
        let mut ch: Channel = ap.channels.remove(c);
        assert(ch.wf(ob.len as int, SAMPLE_LIMIT as int));
        if ch.pairing == Pairing::InputOutput {
            let ghost och = ch;
            let ilen: usize = ch.input.len();
            let mut t: usize = 0;
            while t < ilen
                invariant
                    t <= ilen,
                    ilen == ch.input@.len(),
                    ch.input == och.input,
                    ch.pairing == och.pairing,
                    ch.output@.len() == och.output@.len(),
                    och.output@.len() == ilen,
                    forall|k: int| 0 <= k < t ==> #[trigger] ch.output@[k] == ch.input@[k],
                decreases ilen - t,
            {
                let v: i64 = ch.input[t];
                ch.output[t] = v;
                t = t + 1;
            }
            proof {
                assert(ch.output@ =~= ch.input@);
            }
        }
        ap.channels.insert(c, ch);
        proof {
            assert(ap.channels@ =~= apch0.update(c as int, ch));
        }
        c = c + 1;
    }
    block.ports.insert(port, ap);
    proof {
        assert forall|q: int|
            0 <= q < ob.ports@.len() && q != port implies block.ports@[q] == ob.ports@[q]
        by {
            if q < port {
                assert(block.ports@[q] == ob.ports@.remove(port as int)[q]);
            } else {
                assert(block.ports@[q] == ob.ports@.remove(port as int)[q - 1]);
            }
        }
        assert(block.wf(SAMPLE_LIMIT as int)) by {
            assert forall|p: int|
                0 <= p < block.ports@.len() implies (#[trigger] block.ports@[p]).wf(
                block.len as int,
                SAMPLE_LIMIT as int,
            ) by {
                if p != port {
                    assert(block.ports@[p] == ob.ports@[p]);
                }
            }
        }
    }
    Ok(())
}

} // verus!
