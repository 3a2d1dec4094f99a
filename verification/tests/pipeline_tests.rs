use scstream::pipeline::ChannelPolicy;
use scstream::pipeline::DecodeAction;
use scstream::pipeline::DecodeLoop;
use scstream::pipeline::LoopPhase;
use scstream::pipeline::PacketEvent;
use scstream::pipeline::interleave_stereo;
use scstream::pipeline::take_first_channel;
use scstream::pipeline::upmix_mono;

fn packet(track_id: u32, decode_ok: bool, channels: usize, frames: usize) -> PacketEvent {
    PacketEvent::Packet { track_id, decode_ok, channels, frames }
}

#[test]
fn cancellation_before_first_packet_delivers_nothing() {
    let mut lp = DecodeLoop::new(7, ChannelPolicy::DuplicateToStereo);
    let mut consumer_calls = 0u32;
    let a = lp.step(true, packet(7, true, 2, 1024));
    assert_eq!(a, DecodeAction::Stop);
    assert_eq!(lp.phase, LoopPhase::Cancelled);
    assert_eq!(lp.deliveries, 0);
    if let DecodeAction::Deliver { .. } = a {
        consumer_calls += 1;
    }
    assert_eq!(consumer_calls, 0);
}

#[test]
fn end_of_stream_finishes_without_error() {
    let mut lp = DecodeLoop::new(7, ChannelPolicy::DuplicateToStereo);
    let a = lp.step(false, PacketEvent::EndOfStream);
    assert_eq!(a, DecodeAction::Stop);
    assert_eq!(lp.phase, LoopPhase::Finished);
    assert_eq!(lp.deliveries, 0);
}

#[test]
fn foreign_track_packets_are_skipped() {
    let mut lp = DecodeLoop::new(7, ChannelPolicy::DuplicateToStereo);
    assert_eq!(lp.step(false, packet(8, true, 2, 100)), DecodeAction::Skip);
    assert_eq!(lp.phase, LoopPhase::Running);
    assert_eq!(lp.deliveries, 0);
}

#[test]
fn failed_decodes_are_skipped_not_fatal() {
    let mut lp = DecodeLoop::new(7, ChannelPolicy::DuplicateToStereo);
    assert_eq!(lp.step(false, packet(7, false, 2, 100)), DecodeAction::Skip);
    assert_eq!(lp.phase, LoopPhase::Running);
    assert_eq!(lp.step(false, packet(7, true, 2, 100)), DecodeAction::Deliver { samples: 200 });
    assert_eq!(lp.deliveries, 1);
}

#[test]
fn stereo_delivery_carries_two_samples_per_frame() {
    let mut lp = DecodeLoop::new(1, ChannelPolicy::DuplicateToStereo);
    assert_eq!(lp.step(false, packet(1, true, 1, 576)), DecodeAction::Deliver { samples: 1152 });
    assert_eq!(lp.step(false, packet(1, true, 2, 576)), DecodeAction::Deliver { samples: 1152 });
    assert_eq!(lp.deliveries, 2);
}

#[test]
fn preserving_delivery_carries_one_sample_per_frame() {
    let mut lp = DecodeLoop::new(1, ChannelPolicy::PreserveFirst);
    assert_eq!(lp.step(false, packet(1, true, 2, 576)), DecodeAction::Deliver { samples: 576 });
}

#[test]
fn full_loop_counts_only_delivered_packets() {
    let mut lp = DecodeLoop::new(3, ChannelPolicy::DuplicateToStereo);
    let events = vec![
        packet(3, true, 2, 10),
        packet(4, true, 2, 10),
        packet(3, false, 2, 10),
        packet(3, true, 1, 10),
        PacketEvent::EndOfStream,
    ];
    let mut delivered = 0u32;
    for ev in events {
        match lp.step(false, ev) {
            DecodeAction::Deliver { .. } => delivered += 1,
            DecodeAction::Skip => {}
            DecodeAction::Stop => break,
        }
    }
    assert_eq!(delivered, 2);
    assert_eq!(lp.deliveries, 2);
    assert_eq!(lp.phase, LoopPhase::Finished);
}

#[test]
fn mono_upmix_duplicates_every_frame() {
    let chan: Vec<f32> = vec![0.25, -0.5, 1.0];
    let out = upmix_mono(&chan, 3);
    assert_eq!(out.len(), 6);
    assert_eq!(out, vec![0.25, 0.25, -0.5, -0.5, 1.0, 1.0]);
    for i in 0..3 {
        assert_eq!(out[2 * i], out[2 * i + 1]);
        assert_eq!(out[2 * i], chan[i]);
    }
}

#[test]
fn stereo_interleaving_alternates_channels() {
    let left: Vec<f32> = vec![1.0, 2.0];
    let right: Vec<f32> = vec![3.0, 4.0];
    let out = interleave_stereo(&left, &right, 2);
    assert_eq!(out, vec![1.0, 3.0, 2.0, 4.0]);
}

#[test]
fn interleaving_respects_frame_count() {
    let left: Vec<f32> = vec![1.0, 2.0, 9.0];
    let right: Vec<f32> = vec![3.0, 4.0, 9.0];
    let out = interleave_stereo(&left, &right, 2);
    assert_eq!(out.len(), 4);
}

#[test]
fn preserved_channel_is_copied_unchanged() {
    let chan: Vec<f32> = vec![0.1, 0.2, 0.3, 0.4];
    let out = take_first_channel(&chan, 3);
    assert_eq!(out, vec![0.1, 0.2, 0.3]);
}
