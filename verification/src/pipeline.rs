//! The streaming decode loop and its sample-layout routines.
//!
//! The host owns the container reader and the codec: it pulls packets,
//! decodes them, and delivers blocks to its consumer. Every decision in
//! that loop — when to stop, what to skip, how many samples a delivery
//! carries — is made here. Cancellation is polled once per packet, before
//! the packet is processed, and is never preemptive. A packet that fails
//! to decode is skipped, not fatal. Channel layout follows an explicit
//! policy: either the first two channels are interleaved (a single channel
//! being duplicated into both positions), or the first channel is passed
//! through unchanged.

use vstd::prelude::*;

verus! {

/// How decoded channels are laid out for the consumer.
#[derive(Clone, Copy, PartialEq, Eq, Structural, Debug)]
pub enum ChannelPolicy {
    /// Interleave channels 0 and 1; duplicate a lone channel into both.
    DuplicateToStereo,
    /// Pass channel 0 through, uninterleaved.
    PreserveFirst,
}

/// Where the loop stands.
#[derive(Clone, Copy, PartialEq, Eq, Structural, Debug)]
pub enum LoopPhase {
    Running,
    Finished,
    Cancelled,
}

/// State of one decode loop.
#[derive(Clone, Copy, PartialEq, Eq, Structural, Debug)]
pub struct DecodeLoop {
    /// The container track whose packets are decoded; all others are skipped.
    pub track_id: u32,
    pub policy: ChannelPolicy,
    /// Number of blocks delivered to the consumer so far.
    pub deliveries: u64,
    pub phase: LoopPhase,
}

/// One event of the loop: the next packet, or the container's end.
#[derive(Clone, Copy, PartialEq, Eq, Structural, Debug)]
pub enum PacketEvent {
    Packet { track_id: u32, decode_ok: bool, channels: usize, frames: usize },
    EndOfStream,
}

/// What the host must do with the event.
#[derive(Clone, Copy, PartialEq, Eq, Structural, Debug)]
pub enum DecodeAction {
    /// Decode succeeded: deliver one block of exactly `samples` samples.
    Deliver { samples: usize },
    /// Drop this packet and pull the next one.
    Skip,
    /// The loop is over; pull nothing further.
    Stop,
}

/// Samples one delivery carries for a buffer of `frames` frames: two per
/// frame when duplicating to stereo, one per frame when preserving.
pub open spec fn spec_samples(policy: ChannelPolicy, frames: usize) -> int {
    match policy {
        ChannelPolicy::DuplicateToStereo => 2 * frames,
        ChannelPolicy::PreserveFirst => frames as int,
    }
}

/// The decision for one event: cancellation is honoured before anything
/// else; end of stream finishes the loop; packets of other tracks, failed
/// decodes and empty layouts are skipped; everything else is delivered.
pub open spec fn spec_decode_step(st: DecodeLoop, cancelled: bool, ev: PacketEvent) -> (
    DecodeLoop,
    DecodeAction,
) {
    if cancelled {
        (DecodeLoop { phase: LoopPhase::Cancelled, ..st }, DecodeAction::Stop)
    } else {
        match ev {
            PacketEvent::EndOfStream => (
                DecodeLoop { phase: LoopPhase::Finished, ..st },
                DecodeAction::Stop,
            ),
            PacketEvent::Packet { track_id, decode_ok, channels, frames } => {
                if track_id != st.track_id || !decode_ok || channels == 0 {
                    (st, DecodeAction::Skip)
                } else {
                    (
                        DecodeLoop { deliveries: (st.deliveries + 1) as u64, ..st },
                        DecodeAction::Deliver {
                            samples: spec_samples(st.policy, frames) as usize,
                        },
                    )
                }
            },
        }
    }
}

impl DecodeLoop {
    /// A fresh loop for one selected container track.
    pub fn new(track_id: u32, policy: ChannelPolicy) -> (r: DecodeLoop)
        ensures
            r == (DecodeLoop { track_id, policy, deliveries: 0, phase: LoopPhase::Running }),
    {
        DecodeLoop { track_id, policy, deliveries: 0, phase: LoopPhase::Running }
    }

    /// Decides what to do with the next event. The flag is the cancellation
    /// poll made just before this packet would be processed.
    pub fn step(&mut self, cancelled: bool, ev: PacketEvent) -> (a: DecodeAction)
        requires
            old(self).phase is Running,
            old(self).deliveries < u64::MAX,
            ev matches PacketEvent::Packet { frames, .. } ==> frames <= usize::MAX / 2,
        ensures
            (*final(self), a) == spec_decode_step(*old(self), cancelled, ev),
    {
        if cancelled {
            self.phase = LoopPhase::Cancelled;
            return DecodeAction::Stop;
        }
        match ev {
            PacketEvent::EndOfStream => {
                self.phase = LoopPhase::Finished;
                DecodeAction::Stop
            },
            PacketEvent::Packet { track_id, decode_ok, channels, frames } => {
                if track_id != self.track_id || !decode_ok || channels == 0 {
                    DecodeAction::Skip
                } else {
                    self.deliveries = self.deliveries + 1;
                    let samples: usize = match self.policy {
                        ChannelPolicy::DuplicateToStereo => 2 * frames,
                        ChannelPolicy::PreserveFirst => frames,
                    };
                    DecodeAction::Deliver { samples }
                }
            },
        }
    }
}

/// The loop run to completion over a sequence of polls and events: the
/// final state and how many blocks reach the consumer. The loop ends at
/// the first `Stop`, or when the events run out.
pub open spec fn spec_run_loop(st: DecodeLoop, inputs: Seq<(bool, PacketEvent)>) -> (
    DecodeLoop,
    int,
)
    decreases inputs.len(),
{
    if inputs.len() == 0 {
        (st, 0)
    } else {
        let (st1, a) = spec_decode_step(st, inputs[0].0, inputs[0].1);
        if a is Stop {
            (st1, 0)
        } else {
            let (st2, n) = spec_run_loop(st1, inputs.drop_first());
            (st2, n + if a is Deliver {
                1int
            } else {
                0int
            })
        }
    }
}

/// Cancellation seen before the first packet is processed means the
/// consumer is never called: the loop stops at once, in the `Cancelled`
/// phase, with zero deliveries made.
pub proof fn lemma_cancel_before_first_packet(st: DecodeLoop, inputs: Seq<(bool, PacketEvent)>)
    requires
        inputs.len() > 0,
        inputs[0].0,
    ensures
        spec_run_loop(st, inputs).1 == 0,
        spec_run_loop(st, inputs).0.phase is Cancelled,
        spec_run_loop(st, inputs).0.deliveries == st.deliveries,
{
}

/// Interleaves the first `frames` entries of two channels: sample `2*i`
/// is `left[i]`, sample `2*i + 1` is `right[i]`.
pub fn interleave_stereo<T: Copy>(left: &[T], right: &[T], frames: usize) -> (out: Vec<T>)
    requires
        frames <= left@.len(),
        frames <= right@.len(),
        frames <= usize::MAX / 2,
    ensures
        out@.len() == 2 * frames,
        forall|i: int| 0 <= i < frames ==> out@[2 * i] == left@[i] && out@[2 * i + 1] == right@[i],
{
    let mut out: Vec<T> = Vec::new();
    let mut i: usize = 0;
    while i < frames
        invariant
            i <= frames,
            frames <= left@.len(),
            frames <= right@.len(),
            frames <= usize::MAX / 2,
            out@.len() == 2 * i,
            forall|j: int| 0 <= j < i ==> out@[2 * j] == left@[j] && out@[2 * j + 1] == right@[j],
        decreases frames - i,
    {
        out.push(left[i]);
        out.push(right[i]);
        i = i + 1;
    }
    out
}

/// Duplicates one channel into both interleaved positions: the output
/// carries exactly `2 * frames` samples and every even/odd pair is equal.
pub fn upmix_mono<T: Copy>(chan: &[T], frames: usize) -> (out: Vec<T>)
    requires
        frames <= chan@.len(),
        frames <= usize::MAX / 2,
    ensures
        out@.len() == 2 * frames,
        forall|i: int|
            0 <= i < frames ==> #[trigger] out@[2 * i] == chan@[i] && out@[2 * i + 1] == chan@[i],
        forall|i: int| 0 <= i < frames ==> #[trigger] out@[2 * i] == out@[2 * i + 1],
{
    let out = interleave_stereo(chan, chan, frames);
    proof {
        assert forall|i: int| 0 <= i < frames implies #[trigger] out@[2 * i] == out@[2 * i
            + 1] by {
            assert(out@[2 * i] == chan@[i]);
            assert(out@[2 * i + 1] == chan@[i]);
        }
    }
    out
}

/// Copies the first `frames` entries of channel 0, uninterleaved.
pub fn take_first_channel<T: Copy>(chan: &[T], frames: usize) -> (out: Vec<T>)
    requires
        frames <= chan@.len(),
    ensures
        out@ == chan@.take(frames as int),
{
    let mut out: Vec<T> = Vec::new();
    let mut i: usize = 0;
    while i < frames
        invariant
            i <= frames,
            frames <= chan@.len(),
            out@ == chan@.take(i as int),
        decreases frames - i,
    {
        out.push(chan[i]);
        proof {
            assert(out@ =~= chan@.take(i + 1));
        }
        i = i + 1;
    }
    out
}

} // verus!
