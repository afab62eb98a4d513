use waypaper_engine::decoder::{
    DecodeError, DecodedImage, DrainStep, PixelFormat, ReceiveStatus, StreamParameters,
};
use waypaper_engine::demuxer::{DemuxError, Packet, PacketInfo, ReadEvent, ReadStep};
use waypaper_engine::frames::{OrderedFramesContainer, TimedVideoFrame};
use waypaper_engine::frame_pool::FramePool;
use waypaper_engine::pipeline::{
    DecodeAction, DecodeEvent, DecodeFault, DecodeStage, DecodingPipeline, PipelineError,
    PipelineState,
};
use waypaper_engine::utils::Rational;
use waypaper_engine::video_backend_consts::THREAD_FRAME_BUFFER_SIZE;

fn stream(width: u32, height: u32) -> StreamParameters {
    StreamParameters {
        index: 0,
        format: PixelFormat::Other,
        width,
        height,
        time_base: Rational::new(1, 25),
        codec_time_base: Rational::new(0, 1),
        avg_frame_rate: Rational::new(25, 1),
    }
}

fn pipeline() -> DecodingPipeline {
    match DecodingPipeline::new(Some(stream(2, 1)), None) {
        Ok(p) => p,
        Err(_) => panic!("a pipeline for a 2x1 stream must be made"),
    }
}

fn image(timestamp: i64, value: u8) -> DecodedImage {
    DecodedImage {
        width: 2,
        height: 1,
        linesize: 8,
        data: vec![value, 1, 2, 3, 4, 5, 0, 0],
        pts: Some(timestamp),
        timestamp: None,
    }
}

fn video_packet() -> Option<Packet> {
    Some(Packet::Video(PacketInfo {
        stream_index: 0,
        pts: Some(0),
        dts: Some(0),
        time_base: Rational::new(1, 25),
    }))
}

/// Drives the loop from `ReadPacket` to the point where a frame waits.
fn decode_one(p: &mut DecodingPipeline, timestamp: i64) {
    assert_eq!(p.step(DecodeEvent::Read(video_packet()), false), DecodeAction::Feed);
    assert_eq!(p.step(DecodeEvent::Fed(Ok(())), false), DecodeAction::ReceiveFrame);
    assert_eq!(
        p.step(DecodeEvent::Received(Ok(Some(image(timestamp, 9)))), false),
        DecodeAction::Publish
    );
}

fn keys(queue: &mut OrderedFramesContainer) -> Vec<(u32, i64)> {
    let mut out = Vec::new();
    while let Some(f) = queue.pop() {
        out.push((f.rewind_count, f.timestamp));
    }
    out
}

#[test]
fn new_pipeline_is_idle() {
    let p = pipeline();
    assert_eq!(p.state(), PipelineState::Idle);
    assert_eq!(p.stage(), DecodeStage::Idle);
    assert_eq!(p.rewind_count(), 0);
    assert_eq!(p.fault(), None);
    assert_eq!(p.decoder_size(), (2, 1));
    assert_eq!(p.framerate(), Rational::new(25, 1));
    assert_eq!(p.pool().available(), THREAD_FRAME_BUFFER_SIZE);
    assert_eq!(p.pool().width(), 2);
    assert_eq!(p.pool().height(), 1);
    assert_eq!(p.video_decoder().decoder_time_base(), Rational::new(1, 25));
    assert_eq!(p.demuxer().video_stream().index, 0);
}

#[test]
fn new_pipeline_needs_a_video_stream() {
    assert!(matches!(
        DecodingPipeline::new(None, Some(1)),
        Err(PipelineError::Demux(DemuxError::StreamNotFound))
    ));
}

#[test]
fn new_pipeline_needs_decodable_parameters() {
    assert!(matches!(
        DecodingPipeline::new(Some(stream(0, 4)), None),
        Err(PipelineError::Decode(DecodeError::InvalidParameters))
    ));
    assert!(matches!(
        DecodingPipeline::new(Some(stream(4, 0)), None),
        Err(PipelineError::Decode(DecodeError::InvalidParameters))
    ));
    let mut s = stream(4, 4);
    s.format = PixelFormat::Unknown;
    assert!(matches!(
        DecodingPipeline::new(Some(s), None),
        Err(PipelineError::Decode(DecodeError::InvalidParameters))
    ));
}

#[test]
fn start_begins_with_a_read() {
    let mut p = pipeline();
    assert_eq!(p.step(DecodeEvent::Drained, false), DecodeAction::Ignored);
    assert_eq!(p.state(), PipelineState::Idle);
    assert_eq!(p.start_decoding(false), DecodeAction::ReadPacket);
    assert_eq!(p.state(), PipelineState::Running);
    assert_eq!(p.stage(), DecodeStage::ReadPacket);
}

#[test]
fn start_under_shutdown_goes_straight_to_the_drain() {
    let mut p = pipeline();
    assert_eq!(p.start_decoding(true), DecodeAction::Drain);
    assert_eq!(p.state(), PipelineState::Draining);
    assert_eq!(p.step(DecodeEvent::Drained, true), DecodeAction::Exit);
    assert_eq!(p.state(), PipelineState::Stopped);
}

#[test]
fn frame_is_tagged_and_queued() {
    let mut p = pipeline();
    let mut queue = OrderedFramesContainer::with_capacity(THREAD_FRAME_BUFFER_SIZE);
    p.start_decoding(false);
    decode_one(&mut p, 40);
    assert_eq!(p.stage(), DecodeStage::Publish);
    assert_eq!(p.pool().available(), THREAD_FRAME_BUFFER_SIZE - 1);
    assert_eq!(p.publish(false, &mut queue), DecodeAction::ReceiveFrame);
    assert_eq!(p.stage(), DecodeStage::Receive);
    assert_eq!(queue.len(), 1);
    let f = queue.pop().unwrap();
    assert_eq!((f.rewind_count, f.timestamp), (0, 40));
    assert_eq!(f.frame.buffer().as_bytes(), &vec![9u8, 1, 2, 3, 4, 5]);
}

#[test]
fn best_effort_timestamp_wins_over_pts() {
    let mut p = pipeline();
    let mut queue = OrderedFramesContainer::with_capacity(4);
    p.start_decoding(false);
    p.step(DecodeEvent::Read(video_packet()), false);
    p.step(DecodeEvent::Fed(Ok(())), false);
    let mut img = image(40, 0);
    img.timestamp = Some(7);
    p.step(DecodeEvent::Received(Ok(Some(img))), false);
    p.publish(false, &mut queue);
    assert_eq!(keys(&mut queue), vec![(0, 7)]);
}

#[test]
fn need_more_input_three_times_then_one_frame() {
    let mut p = pipeline();
    let mut queue = OrderedFramesContainer::with_capacity(THREAD_FRAME_BUFFER_SIZE);
    assert_eq!(p.start_decoding(false), DecodeAction::ReadPacket);
    for _ in 0..3 {
        assert_eq!(p.step(DecodeEvent::Read(video_packet()), false), DecodeAction::Feed);
        assert_eq!(p.step(DecodeEvent::Fed(Ok(())), false), DecodeAction::ReceiveFrame);
        assert_eq!(p.step(DecodeEvent::Received(Ok(None)), false), DecodeAction::ReadPacket);
        assert_eq!(p.fault(), None);
        assert_eq!(queue.len(), 0);
    }
    decode_one(&mut p, 3);
    assert_eq!(p.publish(false, &mut queue), DecodeAction::ReceiveFrame);
    assert_eq!(p.step(DecodeEvent::Received(Ok(None)), false), DecodeAction::ReadPacket);
    assert_eq!(p.fault(), None);
    assert_eq!(p.state(), PipelineState::Running);
    assert_eq!(keys(&mut queue), vec![(0, 3)]);
}

#[test]
fn end_of_stream_rewinds_and_counts() {
    let mut p = pipeline();
    p.start_decoding(false);
    for n in 0..5u32 {
        assert_eq!(p.rewind_count(), n);
        assert_eq!(p.step(DecodeEvent::Read(None), false), DecodeAction::SeekToStart);
        assert_eq!(p.stage(), DecodeStage::Rewind);
        assert_eq!(p.rewind_count(), n);
        assert_eq!(p.step(DecodeEvent::Rewound(Ok(())), false), DecodeAction::ReadPacket);
        assert_eq!(p.rewind_count(), n + 1);
    }
}

#[test]
fn looping_stream_is_delivered_generation_by_generation() {
    let mut p = pipeline();
    let mut queue = OrderedFramesContainer::with_capacity(4);
    p.start_decoding(false);
    for t in [0i64, 1, 2] {
        decode_one(&mut p, t);
        assert_eq!(p.publish(false, &mut queue), DecodeAction::ReceiveFrame);
        assert_eq!(p.step(DecodeEvent::Received(Ok(None)), false), DecodeAction::ReadPacket);
    }
    assert_eq!(p.step(DecodeEvent::Read(None), false), DecodeAction::SeekToStart);
    assert_eq!(p.step(DecodeEvent::Rewound(Ok(())), false), DecodeAction::ReadPacket);
    decode_one(&mut p, 0);
    assert_eq!(p.publish(false, &mut queue), DecodeAction::ReceiveFrame);
    assert_eq!(keys(&mut queue), vec![(0, 0), (0, 1), (0, 2), (1, 0)]);
}

#[test]
fn audio_packets_are_passed_over() {
    let mut p = match DecodingPipeline::new(Some(stream(2, 1)), Some(1)) {
        Ok(p) => p,
        Err(_) => panic!("a pipeline for a 2x1 stream must be made"),
    };
    p.start_decoding(false);
    let audio = PacketInfo {
        stream_index: 1,
        pts: None,
        dts: None,
        time_base: Rational::new(1, 48000),
    };
    // the read does not end with an audio packet
    assert_eq!(
        p.read(ReadEvent::Packet(audio, Rational::new(1, 48000))),
        ReadStep::Again
    );
    assert_eq!(p.stage(), DecodeStage::ReadPacket);
    // and the loop asks for the next packet if it is handed one all the same
    assert_eq!(p.step(DecodeEvent::Read(Some(Packet::Audio(audio))), false), DecodeAction::ReadPacket);
    assert_eq!(p.stage(), DecodeStage::ReadPacket);
    assert_eq!(p.fault(), None);
}

#[test]
fn pipeline_reads_through_its_demuxer_and_drains_through_its_decoder() {
    let mut p = pipeline();
    let tb = Rational::new(1, 25);
    let video = PacketInfo { stream_index: 0, pts: Some(1), dts: None, time_base: Rational::new(0, 1) };
    match p.read(ReadEvent::Packet(video, tb)) {
        ReadStep::Deliver(Packet::Video(handed)) => assert_eq!(handed.time_base, tb),
        _ => panic!("the video packet must be delivered"),
    }
    for _ in 0..3 {
        assert_eq!(p.read(ReadEvent::Gap), ReadStep::Again);
    }
    assert_eq!(p.read(ReadEvent::Gap), ReadStep::Exhausted);
    assert_eq!(p.seek_to_start(true), Ok(()));
    assert_eq!(p.seek_to_start(false), Err(DemuxError::SeekFailed));
    p.begin_drain();
    assert_eq!(p.drain(ReceiveStatus::Frame(image(0, 0))), DrainStep::Continue);
    assert_eq!(p.drain(ReceiveStatus::Eof), DrainStep::Finished);
    assert_eq!(p.drain(ReceiveStatus::Failure), DrainStep::Failed);
}

#[test]
fn duplicate_after_a_wake_up_leaves_the_room_to_the_next_frame() {
    let mut p = pipeline();
    let mut queue = OrderedFramesContainer::with_capacity(2);
    p.start_decoding(false);
    for t in [0i64, 1] {
        decode_one(&mut p, t);
        assert_eq!(p.publish(false, &mut queue), DecodeAction::ReceiveFrame);
        assert_eq!(p.step(DecodeEvent::Received(Ok(None)), false), DecodeAction::ReadPacket);
    }
    decode_one(&mut p, 1);
    assert_eq!(p.publish(false, &mut queue), DecodeAction::Park);
    queue.pop();
    // the waiting frame's key is queued already: it is not queued again
    assert_eq!(p.publish(false, &mut queue), DecodeAction::ReceiveFrame);
    assert_eq!(queue.len(), 1);
    assert_eq!(p.step(DecodeEvent::Received(Ok(Some(image(2, 0)))), false), DecodeAction::Publish);
    assert_eq!(p.publish(false, &mut queue), DecodeAction::ReceiveFrame);
    assert_eq!(keys(&mut queue), vec![(0, 1), (0, 2)]);
}

#[test]
fn failed_feed_goes_on_with_the_next_packet() {
    let mut p = pipeline();
    p.start_decoding(false);
    p.step(DecodeEvent::Read(video_packet()), false);
    assert_eq!(p.step(DecodeEvent::Fed(Err(DecodeError::Other)), false), DecodeAction::ReadPacket);
    assert_eq!(p.fault(), None);
    assert_eq!(p.state(), PipelineState::Running);
}

#[test]
fn decoder_eof_is_fatal() {
    let mut p = pipeline();
    p.start_decoding(false);
    p.step(DecodeEvent::Read(video_packet()), false);
    p.step(DecodeEvent::Fed(Ok(())), false);
    assert_eq!(p.step(DecodeEvent::Received(Err(DecodeError::Eof)), false), DecodeAction::Drain);
    assert_eq!(p.fault(), Some(DecodeFault::Eof));
    assert_eq!(p.state(), PipelineState::Draining);
    assert_eq!(p.step(DecodeEvent::Drained, false), DecodeAction::Exit);
    assert_eq!(p.state(), PipelineState::Stopped);
    assert_eq!(p.fault(), Some(DecodeFault::Eof));
}

#[test]
fn decoder_fault_is_fatal() {
    let mut p = pipeline();
    p.start_decoding(false);
    p.step(DecodeEvent::Read(video_packet()), false);
    p.step(DecodeEvent::Fed(Ok(())), false);
    assert_eq!(p.step(DecodeEvent::Received(Err(DecodeError::Other)), false), DecodeAction::Drain);
    assert_eq!(p.fault(), Some(DecodeFault::Decoder));
}

#[test]
fn failed_rewind_is_fatal() {
    let mut p = pipeline();
    p.start_decoding(false);
    p.step(DecodeEvent::Read(None), false);
    assert_eq!(
        p.step(DecodeEvent::Rewound(Err(DemuxError::SeekFailed)), false),
        DecodeAction::Drain
    );
    assert_eq!(p.fault(), Some(DecodeFault::Seek));
    assert_eq!(p.rewind_count(), 0);
}

#[test]
fn frame_of_another_size_is_fatal_and_takes_no_buffer() {
    let mut p = pipeline();
    p.start_decoding(false);
    p.step(DecodeEvent::Read(video_packet()), false);
    p.step(DecodeEvent::Fed(Ok(())), false);
    let mut img = image(0, 0);
    img.width = 1;
    assert_eq!(p.step(DecodeEvent::Received(Ok(Some(img))), false), DecodeAction::Drain);
    assert_eq!(p.fault(), Some(DecodeFault::Frame));
    assert_eq!(p.pool().available(), THREAD_FRAME_BUFFER_SIZE);
}

#[test]
fn malformed_frame_is_fatal() {
    let mut p = pipeline();
    p.start_decoding(false);
    p.step(DecodeEvent::Read(video_packet()), false);
    p.step(DecodeEvent::Fed(Ok(())), false);
    let mut img = image(0, 0);
    img.data.truncate(5);
    assert_eq!(p.step(DecodeEvent::Received(Ok(Some(img))), false), DecodeAction::Drain);
    assert_eq!(p.fault(), Some(DecodeFault::Frame));
}

#[test]
fn events_of_another_stage_are_ignored() {
    let mut p = pipeline();
    p.start_decoding(false);
    assert_eq!(p.step(DecodeEvent::Fed(Ok(())), false), DecodeAction::Ignored);
    assert_eq!(p.step(DecodeEvent::Rewound(Ok(())), false), DecodeAction::Ignored);
    assert_eq!(p.step(DecodeEvent::Start, false), DecodeAction::Ignored);
    assert_eq!(p.stage(), DecodeStage::ReadPacket);
    assert_eq!(p.rewind_count(), 0);
    let mut queue = OrderedFramesContainer::with_capacity(2);
    assert_eq!(p.publish(false, &mut queue), DecodeAction::Ignored);
    assert!(queue.is_empty());
}

#[test]
fn producer_parks_at_capacity_and_one_pop_lets_one_frame_in() {
    let capacity = 3;
    let mut p = pipeline();
    let mut queue = OrderedFramesContainer::with_capacity(capacity);
    p.start_decoding(false);
    for t in 0..capacity as i64 {
        decode_one(&mut p, t);
        assert_eq!(p.publish(false, &mut queue), DecodeAction::ReceiveFrame);
        assert_eq!(p.step(DecodeEvent::Received(Ok(None)), false), DecodeAction::ReadPacket);
    }
    assert_eq!(queue.len(), capacity);
    decode_one(&mut p, 10);
    assert_eq!(p.publish(false, &mut queue), DecodeAction::Park);
    assert_eq!(p.publish(false, &mut queue), DecodeAction::Park);
    assert_eq!(queue.len(), capacity);
    assert_eq!(p.stage(), DecodeStage::Publish);
    // the consumer takes one frame and wakes the producer
    let taken = queue.pop().unwrap();
    assert_eq!(taken.timestamp, 0);
    assert_eq!(p.publish(false, &mut queue), DecodeAction::ReceiveFrame);
    assert_eq!(queue.len(), capacity);
    // the next frame waits again
    assert_eq!(p.step(DecodeEvent::Received(Ok(Some(image(11, 0)))), false), DecodeAction::Publish);
    assert_eq!(p.publish(false, &mut queue), DecodeAction::Park);
    assert_eq!(queue.len(), capacity);
    assert_eq!(keys(&mut queue), vec![(0, 1), (0, 2), (0, 10)]);
}

#[test]
fn shutdown_while_suspended_drains_exactly_once() {
    let mut p = pipeline();
    let mut queue = OrderedFramesContainer::with_capacity(1);
    p.start_decoding(false);
    decode_one(&mut p, 0);
    assert_eq!(p.publish(false, &mut queue), DecodeAction::ReceiveFrame);
    assert_eq!(p.step(DecodeEvent::Received(Ok(Some(image(1, 0)))), false), DecodeAction::Publish);
    assert_eq!(p.publish(false, &mut queue), DecodeAction::Park);
    let free_while_parked = p.pool().available();
    // stop_decoding sets the flag and wakes the thread
    let mut drains = 0;
    let mut action = p.publish(true, &mut queue);
    let mut turns = 0;
    while action != DecodeAction::Exit {
        assert!(turns < 4, "the thread must leave after a bounded number of turns");
        if action == DecodeAction::Drain {
            drains += 1;
            action = p.step(DecodeEvent::Drained, true);
        } else {
            action = p.step(DecodeEvent::Start, true);
        }
        turns += 1;
    }
    assert_eq!(drains, 1);
    assert_eq!(p.state(), PipelineState::Stopped);
    assert_eq!(p.fault(), None);
    assert_eq!(p.pool().available(), free_while_parked + 1);
    assert_eq!(queue.len(), 1);
    assert_eq!(p.step(DecodeEvent::Drained, true), DecodeAction::Exit);
    assert_eq!(p.publish(true, &mut queue), DecodeAction::Ignored);
    assert_eq!(p.state(), PipelineState::Stopped);
}

#[test]
fn shutdown_is_seen_at_every_running_stage() {
    let mut p = pipeline();
    p.start_decoding(false);
    p.step(DecodeEvent::Read(video_packet()), false);
    assert_eq!(p.step(DecodeEvent::Fed(Ok(())), true), DecodeAction::Drain);
    assert_eq!(p.state(), PipelineState::Draining);
    assert_eq!(p.step(DecodeEvent::Fed(Ok(())), true), DecodeAction::Ignored);
    assert_eq!(p.step(DecodeEvent::Drained, false), DecodeAction::Exit);
}

#[test]
fn duplicate_frame_goes_back_to_the_pool() {
    let mut p = pipeline();
    let mut queue = OrderedFramesContainer::with_capacity(4);
    p.start_decoding(false);
    decode_one(&mut p, 5);
    p.publish(false, &mut queue);
    assert_eq!(p.pool().available(), THREAD_FRAME_BUFFER_SIZE - 1);
    assert_eq!(p.step(DecodeEvent::Received(Ok(Some(image(5, 1)))), false), DecodeAction::Publish);
    assert_eq!(p.pool().available(), THREAD_FRAME_BUFFER_SIZE - 2);
    assert_eq!(p.publish(false, &mut queue), DecodeAction::ReceiveFrame);
    assert_eq!(p.pool().available(), THREAD_FRAME_BUFFER_SIZE - 1);
    assert_eq!(queue.len(), 1);
    assert_eq!(queue.peek().unwrap().frame.buffer().as_bytes()[0], 9);
}

#[test]
fn steady_decoding_never_exhausts_the_pool() {
    let mut p = pipeline();
    let mut queue = OrderedFramesContainer::with_capacity(THREAD_FRAME_BUFFER_SIZE);
    let mut displayed: Option<TimedVideoFrame> = None;
    p.start_decoding(false);
    for t in 0..500i64 {
        assert!(!p.pool().is_exhausted());
        decode_one(&mut p, t);
        assert_eq!(p.publish(false, &mut queue), DecodeAction::ReceiveFrame);
        assert_eq!(p.step(DecodeEvent::Received(Ok(None)), false), DecodeAction::ReadPacket);
        if queue.len() >= THREAD_FRAME_BUFFER_SIZE - 2 {
            let next = queue.pop().unwrap();
            if let Some(before) = displayed.replace(next) {
                assert!(p.release_buffer(before.frame));
            }
        }
        let in_flight = queue.len() + displayed.iter().count();
        assert_eq!(p.pool().available() + in_flight, THREAD_FRAME_BUFFER_SIZE);
    }
}

#[test]
fn release_buffer_refuses_another_shape() {
    let mut p = pipeline();
    let mut other = FramePool::new(3, 3, 1);
    assert!(!p.release_buffer(other.get_buffer()));
    assert_eq!(p.pool().available(), THREAD_FRAME_BUFFER_SIZE);
}
