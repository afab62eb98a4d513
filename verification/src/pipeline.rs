//! The decode loop as a state machine: from the answer of the demuxer or the
//! decoder to what the decode thread does next.

use vstd::prelude::*;
use crate::decoder::{
    drain_step, DecodeError, DecodedImage, DrainStep, ReceiveStatus, StreamParameters,
    VideoDecoder,
};
use crate::demuxer::{read_step, DemuxError, Demuxer, Packet, ReadEvent, ReadStep};
use crate::frame_pool::{is_packed_copy, FillError, FramePool, FramePoolHandle, PoolModel};
use crate::frames::{
    has_key, lemma_rank_splits, pushed, rank, strictly_ordered,
    OrderedFramesContainer, PushOutcome, TimedVideoFrame,
};
use crate::utils::{rgb24_fits, rgb24_len, usable_time_base, Rational};
use crate::video_backend_consts::THREAD_FRAME_BUFFER_SIZE;

verus! {

/// The life of a pipeline.
#[derive(Clone, Copy, Debug, PartialEq, Eq, Structural)]
pub enum PipelineState {
    Idle,
    Running,
    Draining,
    Stopped,
}

/// Where the decode thread stands: what it waits for.
#[derive(Clone, Copy, Debug, PartialEq, Eq, Structural)]
pub enum DecodeStage {
    /// Not started.
    Idle,
    /// Waiting for the demuxer's next packet.
    ReadPacket,
    /// Waiting for the demuxer to go back to the start.
    Rewind,
    /// Waiting for the decoder to take the packet.
    Feed,
    /// Waiting for the decoder's next frame.
    Receive,
    /// Holding a frame until the queue has room for it.
    Publish,
    /// Waiting for the decoder to be drained.
    Drain,
    /// Done.
    Stopped,
}

/// What the decode thread does next.
#[derive(Clone, Copy, Debug, PartialEq, Eq, Structural)]
pub enum DecodeAction {
    /// Nothing changed: the event does not belong to the stage.
    Ignored,
    /// Ask the demuxer for the next packet.
    ReadPacket,
    /// Ask the demuxer to go back to the start.
    SeekToStart,
    /// Hand the packet to the decoder.
    Feed,
    /// Ask the decoder for a frame.
    ReceiveFrame,
    /// Lock the queue and call `publish`.
    Publish,
    /// Suspend until woken, then call `publish` again.
    Park,
    /// Drain the decoder.
    Drain,
    /// Leave the thread.
    Exit,
}

/// Why decoding ended by itself.
#[derive(Clone, Copy, Debug, PartialEq, Eq, Structural)]
pub enum DecodeFault {
    /// The decoder reported the end of the stream while frames were asked for.
    Eof,
    /// The decoder failed.
    Decoder,
    /// The demuxer could not go back to the start.
    Seek,
    /// A decoded image did not match the pool's buffers or was malformed.
    Frame,
    /// The rewind count cannot grow any more.
    RewindsExhausted,
}

/// Why a pipeline could not be made.
#[derive(Clone, Copy, Debug, PartialEq, Eq, Structural)]
pub enum PipelineError {
    Demux(DemuxError),
    Decode(DecodeError),
    /// A frame of the stream's size does not fit in memory.
    FrameTooLarge,
}

/// What happened outside the state machine.
pub enum DecodeEvent {
    /// Decoding was asked to start.
    Start,
    /// The demuxer ended a read, with a packet or without.
    Read(Option<Packet>),
    /// The demuxer answered the request to go back to the start.
    Rewound(Result<(), DemuxError>),
    /// The decoder answered the packet handed to it.
    Fed(Result<(), DecodeError>),
    /// The decoder answered the request for a frame.
    Received(Result<Option<DecodedImage>, DecodeError>),
    /// The decoder is drained.
    Drained,
}

/// The stage, the rewind count and the fault after an event, and the action
/// that it calls for.
pub struct Transition {
    pub stage: DecodeStage,
    pub action: DecodeAction,
    pub rewind_count: u32,
    pub fault: Option<DecodeFault>,
}

/// Whether the decode loop is between start and drain.
pub open spec fn is_running(stage: DecodeStage) -> bool {
    stage is ReadPacket || stage is Rewind || stage is Feed || stage is Receive
        || stage is Publish
}

/// The life of the pipeline at a stage of the decode thread.
pub open spec fn state_of(stage: DecodeStage) -> PipelineState {
    match stage {
        DecodeStage::Idle => PipelineState::Idle,
        DecodeStage::Drain => PipelineState::Draining,
        DecodeStage::Stopped => PipelineState::Stopped,
        _ => PipelineState::Running,
    }
}

/// The decode loop's rule. `usable` says whether a frame that the event
/// carries can be copied into a buffer of the pool.
pub open spec fn transition(
    stage: DecodeStage,
    rewind_count: u32,
    fault: Option<DecodeFault>,
    event: DecodeEvent,
    shutdown: bool,
    usable: bool,
) -> Transition {
    let stay = Transition { stage, action: DecodeAction::Ignored, rewind_count, fault };
    let goes = |next: DecodeStage, action: DecodeAction|
        Transition { stage: next, action, rewind_count, fault };
    let fails = |why: DecodeFault|
        Transition {
            stage: DecodeStage::Drain,
            action: DecodeAction::Drain,
            rewind_count,
            fault: Some(why),
        };
    match stage {
        DecodeStage::Stopped => goes(DecodeStage::Stopped, DecodeAction::Exit),
        DecodeStage::Drain => match event {
            DecodeEvent::Drained => goes(DecodeStage::Stopped, DecodeAction::Exit),
            _ => stay,
        },
        DecodeStage::Idle => match event {
            DecodeEvent::Start => if shutdown {
                goes(DecodeStage::Drain, DecodeAction::Drain)
            } else {
                goes(DecodeStage::ReadPacket, DecodeAction::ReadPacket)
            },
            _ => stay,
        },
        _ => if shutdown {
            goes(DecodeStage::Drain, DecodeAction::Drain)
        } else {
            match (stage, event) {
                (DecodeStage::ReadPacket, DecodeEvent::Read(Some(Packet::Video(_)))) => goes(
                    DecodeStage::Feed,
                    DecodeAction::Feed,
                ),
                (DecodeStage::ReadPacket, DecodeEvent::Read(Some(Packet::Audio(_)))) => goes(
                    DecodeStage::ReadPacket,
                    DecodeAction::ReadPacket,
                ),
                (DecodeStage::ReadPacket, DecodeEvent::Read(None)) => if rewind_count
                    == u32::MAX {
                    fails(DecodeFault::RewindsExhausted)
                } else {
                    goes(DecodeStage::Rewind, DecodeAction::SeekToStart)
                },
                (DecodeStage::Rewind, DecodeEvent::Rewound(Ok(_))) => Transition {
                    stage: DecodeStage::ReadPacket,
                    action: DecodeAction::ReadPacket,
                    rewind_count: (rewind_count + 1) as u32,
                    fault,
                },
                (DecodeStage::Rewind, DecodeEvent::Rewound(Err(_))) => fails(DecodeFault::Seek),
                (DecodeStage::Feed, DecodeEvent::Fed(Ok(_))) => goes(
                    DecodeStage::Receive,
                    DecodeAction::ReceiveFrame,
                ),
                (DecodeStage::Feed, DecodeEvent::Fed(Err(_))) => goes(
                    DecodeStage::ReadPacket,
                    DecodeAction::ReadPacket,
                ),
                (DecodeStage::Receive, DecodeEvent::Received(Ok(Some(_)))) => if usable {
                    goes(DecodeStage::Publish, DecodeAction::Publish)
                } else {
                    fails(DecodeFault::Frame)
                },
                (DecodeStage::Receive, DecodeEvent::Received(Ok(None))) => goes(
                    DecodeStage::ReadPacket,
                    DecodeAction::ReadPacket,
                ),
                (DecodeStage::Receive, DecodeEvent::Received(Err(DecodeError::Eof))) => fails(
                    DecodeFault::Eof,
                ),
                (DecodeStage::Receive, DecodeEvent::Received(Err(_))) => fails(
                    DecodeFault::Decoder,
                ),
                _ => stay,
            }
        },
    }
}

/// What a holder of a frame does before a queue of `len` frames and capacity
/// `capacity`: wait while the queue is at capacity, go on otherwise.
pub open spec fn publish_action(len: int, capacity: int) -> DecodeAction {
    if len >= capacity {
        DecodeAction::Park
    } else {
        DecodeAction::ReceiveFrame
    }
}

/// Why no pipeline can be made for a container with this video stream, if
/// there is a reason.
pub open spec fn refusal(video: Option<StreamParameters>) -> Option<PipelineError> {
    match video {
        None => Some(PipelineError::Demux(DemuxError::StreamNotFound)),
        Some(stream) => if !stream.decodable() {
            Some(PipelineError::Decode(DecodeError::InvalidParameters))
        } else if rgb24_len(stream.height as int, stream.width as int) > usize::MAX {
            Some(PipelineError::FrameTooLarge)
        } else {
            None
        },
    }
}

/// The decode side of a playback session: the demuxer's and the decoder's
/// settings, the buffer pool, and the state of the decode loop.
pub struct DecodingPipeline {
    demuxer: Demuxer,
    video_decoder: VideoDecoder,
    pool: FramePool,
    stage: DecodeStage,
    rewind_count: u32,
    pending: Option<TimedVideoFrame>,
    fault: Option<DecodeFault>,
}

impl DecodingPipeline {
    pub closed spec fn spec_demuxer(&self) -> Demuxer {
        self.demuxer
    }

    pub closed spec fn spec_decoder(&self) -> VideoDecoder {
        self.video_decoder
    }

    pub closed spec fn spec_pool(&self) -> FramePool {
        self.pool
    }

    pub closed spec fn spec_stage(&self) -> DecodeStage {
        self.stage
    }

    /// How often the stream has been rewound.
    pub closed spec fn spec_rewind_count(&self) -> u32 {
        self.rewind_count
    }

    /// The frame that waits for room in the queue.
    pub closed spec fn spec_pending(&self) -> Option<TimedVideoFrame> {
        self.pending
    }

    pub closed spec fn spec_fault(&self) -> Option<DecodeFault> {
        self.fault
    }

    /// A frame waits exactly in the stage `Publish`, and it lies in a buffer of
    /// the pool's shape; a rewind is under way only while the rewind count can
    /// still grow.
    pub open spec fn wf(&self) -> bool {
        &&& self.spec_demuxer().wf()
        &&& self.spec_decoder().wf()
        &&& self.spec_pool().wf()
        &&& self.spec_stage() is Rewind ==> self.spec_rewind_count() < u32::MAX
        &&& self.spec_stage() is Publish <==> self.spec_pending() is Some
        &&& self.spec_pending() matches Some(frame) ==> self.spec_pool().fits(
            frame.frame.spec_buffer(),
        )
    }

    /// Whether the image that `event` carries, if it carries one, can be
    /// copied into a buffer of the pool.
    pub open spec fn usable(&self, event: DecodeEvent) -> bool {
        event matches DecodeEvent::Received(Ok(Some(image))) ==> {
            &&& self.spec_pool().spec_height() == image.height
            &&& self.spec_pool().spec_width() == image.width
            &&& image.well_formed()
        }
    }

    /// A pipeline for a container whose best video stream is `video` and
    /// whose best audio stream has the index `audio`. There must be a video
    /// stream, a decoder for it must be possible, and one of its frames must
    /// fit in memory. The pool is made with as many buffers as the queue
    /// may hold frames.
    pub fn new(video: Option<StreamParameters>, audio: Option<usize>) -> (r: Result<
        Self,
        PipelineError,
    >)
        ensures
            r is Ok <==> refusal(video) is None,
            r is Err ==> Some(r->Err_0) == refusal(video),
            r matches Ok(p) ==> {
                &&& p.wf()
                &&& p.spec_stage() is Idle
                &&& p.spec_rewind_count() == 0
                &&& p.spec_fault() is None
                &&& p.spec_demuxer().spec_video_stream() == crate::demuxer::with_usable_time_base(
                    video->Some_0,
                )
                &&& p.spec_decoder().spec_size() == (video->Some_0.width, video->Some_0.height)
                &&& p.spec_decoder().spec_stream_time_base() == usable_time_base(
                    video->Some_0.time_base,
                    video->Some_0.avg_frame_rate,
                )
                &&& p.spec_decoder().spec_decoder_time_base() == usable_time_base(
                    video->Some_0.codec_time_base,
                    video->Some_0.avg_frame_rate,
                )
                &&& p.spec_pool().spec_width() == video->Some_0.width
                &&& p.spec_pool().spec_height() == video->Some_0.height
                &&& p.spec_pool().model() == (PoolModel {
                    free: THREAD_FRAME_BUFFER_SIZE as nat,
                    in_flight: 0,
                })
            },
    {
        let demuxer: Demuxer = match Demuxer::new(video, audio) {
            Ok(d) => d,
            Err(e) => {
                return Err(PipelineError::Demux(e));
            },
        };
        let stream: StreamParameters = demuxer.video_stream();
        let video_decoder: VideoDecoder = match VideoDecoder::new(&stream) {
            Ok(d) => d,
            Err(e) => {
                return Err(PipelineError::Decode(e));
            },
        };
        let size: (u32, u32) = video_decoder.size();
        let width: usize = size.0 as usize;
        let height: usize = size.1 as usize;
        if !rgb24_fits(height, width) {
            return Err(PipelineError::FrameTooLarge);
        }
        let pool: FramePool = FramePool::new(width, height, THREAD_FRAME_BUFFER_SIZE);
        Ok(
            DecodingPipeline {
                demuxer,
                video_decoder,
                pool,
                stage: DecodeStage::Idle,
                rewind_count: 0,
                pending: None,
                fault: None,
            },
        )
    }

    /// Width and height of the decoded frames.
    pub fn decoder_size(&self) -> (s: (u32, u32))
        ensures
            s == self.spec_decoder().spec_size(),
    {
        self.video_decoder.size()
    }

    /// The stream's average frame rate.
    pub fn framerate(&self) -> (r: Rational)
        ensures
            r == self.spec_demuxer().spec_video_stream().avg_frame_rate,
    {
        self.demuxer.video_stream().avg_frame_rate
    }

    pub fn state(&self) -> (s: PipelineState)
        ensures
            s == state_of(self.spec_stage()),
    {
        match self.stage {
            DecodeStage::Idle => PipelineState::Idle,
            DecodeStage::Drain => PipelineState::Draining,
            DecodeStage::Stopped => PipelineState::Stopped,
            _ => PipelineState::Running,
        }
    }

    pub fn stage(&self) -> (s: DecodeStage)
        ensures
            s == self.spec_stage(),
    {
        self.stage
    }

    pub fn rewind_count(&self) -> (n: u32)
        ensures
            n == self.spec_rewind_count(),
    {
        self.rewind_count
    }

    /// Why decoding ended by itself, if it did.
    pub fn fault(&self) -> (f: Option<DecodeFault>)
        ensures
            f == self.spec_fault(),
    {
        self.fault
    }

    /// Starts the decode loop: the thread that is spawned for it begins with
    /// the action returned.
    pub fn start_decoding(&mut self, shutdown: bool) -> (action: DecodeAction)
        requires
            old(self).wf(),
        ensures
            final(self).wf(),
            final(self).spec_demuxer() == old(self).spec_demuxer(),
            final(self).spec_decoder() == old(self).spec_decoder(),
            final(self).after(
                old(self),
                transition(
                    old(self).spec_stage(),
                    old(self).spec_rewind_count(),
                    old(self).spec_fault(),
                    DecodeEvent::Start,
                    shutdown,
                    true,
                ),
                action,
            ),
            final(self).spec_pending() == old(self).spec_pending() || final(self).spec_pending() is None,
            final(self).spec_pool().model() == if old(self).spec_stage() is Publish && shutdown {
                old(self).spec_pool().model().released()
            } else {
                old(self).spec_pool().model()
            },
    {
        self.step(DecodeEvent::Start, shutdown)
    }

    /// The stage, the rewind count and the fault are those of `t`, and
    /// `action` is its action.
    pub open spec fn after(&self, before: &Self, t: Transition, action: DecodeAction) -> bool {
        &&& self.spec_stage() == t.stage
        &&& self.spec_rewind_count() == t.rewind_count
        &&& self.spec_fault() == t.fault
        &&& action == t.action
        &&& self.spec_pool().spec_width() == before.spec_pool().spec_width()
        &&& self.spec_pool().spec_height() == before.spec_pool().spec_height()
    }

    /// One turn of the decode loop: takes the answer to the action given
    /// last and says what to do next, by the rule `transition`. A frame that
    /// the decoder hands over is copied into a buffer of the pool and tagged
    /// with the rewind count and its timestamp; it then waits for `publish`. A
    /// request to shut down, seen at any stage of the running loop, ends the
    /// loop; a frame that waits then goes back to the pool.
    pub fn step(&mut self, event: DecodeEvent, shutdown: bool) -> (action: DecodeAction)
        requires
            old(self).wf(),
        ensures
            final(self).wf(),
            final(self).spec_demuxer() == old(self).spec_demuxer(),
            final(self).spec_decoder() == old(self).spec_decoder(),
            final(self).after(
                old(self),
                transition(
                    old(self).spec_stage(),
                    old(self).spec_rewind_count(),
                    old(self).spec_fault(),
                    event,
                    shutdown,
                    old(self).usable(event),
                ),
                action,
            ),
            old(self).spec_stage() is Publish ==> {
                &&& final(self).spec_stage() is Publish ==> final(self).spec_pending() == old(self).spec_pending()
                &&& final(self).spec_pool().model() == if final(self).spec_stage() is Publish {
                    old(self).spec_pool().model()
                } else {
                    old(self).spec_pool().model().released()
                }
            },
            !(old(self).spec_stage() is Publish) ==> {
                &&& final(self).spec_stage() is Publish ==> {
                    &&& event matches DecodeEvent::Received(Ok(Some(image)))
                    &&& final(self).spec_pending() matches Some(frame)
                    &&& frame.rewind_count == old(self).spec_rewind_count()
                    &&& frame.timestamp == image.ordering_timestamp()
                    &&& is_packed_copy(frame.frame@, &image)
                }
                &&& final(self).spec_pool().model() == if final(self).spec_stage() is Publish {
                    old(self).spec_pool().model().checked_out()
                } else {
                    old(self).spec_pool().model()
                }
            },
    {
        match self.stage {
            DecodeStage::Stopped => {
                return DecodeAction::Exit;
            },
            DecodeStage::Drain => {
                return match event {
                    DecodeEvent::Drained => {
                        self.stage = DecodeStage::Stopped;
                        DecodeAction::Exit
                    },
                    _ => DecodeAction::Ignored,
                };
            },
            DecodeStage::Idle => {
                return match event {
                    DecodeEvent::Start => {
                        if shutdown {
                            self.stage = DecodeStage::Drain;
                            DecodeAction::Drain
                        } else {
                            self.stage = DecodeStage::ReadPacket;
                            DecodeAction::ReadPacket
                        }
                    },
                    _ => DecodeAction::Ignored,
                };
            },
            _ => {},
        }
        if shutdown {
            self.drop_pending();
            self.stage = DecodeStage::Drain;
            return DecodeAction::Drain;
        }
        match self.stage {
            DecodeStage::ReadPacket => match event {
                DecodeEvent::Read(Some(Packet::Video(_))) => {
                    self.stage = DecodeStage::Feed;
                    DecodeAction::Feed
                },
                DecodeEvent::Read(Some(Packet::Audio(_))) => DecodeAction::ReadPacket,
                DecodeEvent::Read(None) => {
                    if self.rewind_count == u32::MAX {
                        self.fail(DecodeFault::RewindsExhausted)
                    } else {
                        self.stage = DecodeStage::Rewind;
                        DecodeAction::SeekToStart
                    }
                },
                _ => DecodeAction::Ignored,
            },
            DecodeStage::Rewind => match event {
                DecodeEvent::Rewound(Ok(_)) => {
                    self.rewind_count = self.rewind_count + 1;
                    self.stage = DecodeStage::ReadPacket;
                    DecodeAction::ReadPacket
                },
                DecodeEvent::Rewound(Err(_)) => self.fail(DecodeFault::Seek),
                _ => DecodeAction::Ignored,
            },
            DecodeStage::Feed => match event {
                DecodeEvent::Fed(Ok(_)) => {
                    self.stage = DecodeStage::Receive;
                    DecodeAction::ReceiveFrame
                },
                DecodeEvent::Fed(Err(_)) => {
                    self.stage = DecodeStage::ReadPacket;
                    DecodeAction::ReadPacket
                },
                _ => DecodeAction::Ignored,
            },
            DecodeStage::Receive => match event {
                DecodeEvent::Received(Ok(Some(image))) => {
                    if self.pool.height() == image.height as usize && self.pool.width()
                        == image.width as usize && image.is_well_formed() {
                        let mut handle: FramePoolHandle = self.pool.get_buffer();
                        let filled: Result<(), FillError> = handle.fill_with(&image);
                        assert(filled is Ok);
                        self.pending =
                        Some(
                            TimedVideoFrame::new(
                                handle,
                                image.presentation_timestamp(),
                                self.rewind_count,
                            ),
                        );
                        self.stage = DecodeStage::Publish;
                        DecodeAction::Publish
                    } else {
                        self.fail(DecodeFault::Frame)
                    }
                },
                DecodeEvent::Received(Ok(None)) => {
                    self.stage = DecodeStage::ReadPacket;
                    DecodeAction::ReadPacket
                },
                DecodeEvent::Received(Err(DecodeError::Eof)) => self.fail(DecodeFault::Eof),
                DecodeEvent::Received(Err(_)) => self.fail(DecodeFault::Decoder),
                _ => DecodeAction::Ignored,
            },
            _ => DecodeAction::Ignored,
        }
    }

    /// Backpressure. Offers the frame that waits to the queue, unless the
    /// queue is at capacity: then nothing changes and the thread is to
    /// suspend itself until it is woken, and to call again. A frame whose key
    /// is queued already goes back to the pool. A request to shut down ends
    /// the loop, and the frame goes back to the pool.
    pub fn publish(&mut self, shutdown: bool, queue: &mut OrderedFramesContainer) -> (action:
        DecodeAction)
        requires
            old(self).wf(),
            old(queue).wf(),
        ensures
            final(self).wf(),
            final(queue).wf(),
            final(queue).spec_capacity() == old(queue).spec_capacity(),
            final(self).spec_demuxer() == old(self).spec_demuxer(),
            final(self).spec_decoder() == old(self).spec_decoder(),
            final(self).spec_rewind_count() == old(self).spec_rewind_count(),
            final(self).spec_fault() == old(self).spec_fault(),
            final(self).spec_pool().spec_width() == old(self).spec_pool().spec_width(),
            final(self).spec_pool().spec_height() == old(self).spec_pool().spec_height(),
            !(old(self).spec_stage() is Publish) ==> {
                &&& action == DecodeAction::Ignored
                &&& final(self).spec_stage() == old(self).spec_stage()
                &&& final(self).spec_pending() is None
                &&& final(self).spec_pool().model() == old(self).spec_pool().model()
                &&& final(queue)@ == old(queue)@
            },
            old(self).spec_stage() is Publish && shutdown ==> {
                &&& action == DecodeAction::Drain
                &&& final(self).spec_stage() == DecodeStage::Drain
                &&& final(self).spec_pending() is None
                &&& final(self).spec_pool().model() == old(self).spec_pool().model().released()
                &&& final(queue)@ == old(queue)@
            },
            old(self).spec_stage() is Publish && !shutdown ==> {
                &&& action == publish_action(old(queue)@.len() as int, old(queue).spec_capacity())
                &&& action == DecodeAction::Park ==> {
                    &&& final(self).spec_stage() == DecodeStage::Publish
                    &&& final(self).spec_pending() == old(self).spec_pending()
                    &&& final(self).spec_pool().model() == old(self).spec_pool().model()
                    &&& final(queue)@ == old(queue)@
                }
                &&& action == DecodeAction::ReceiveFrame ==> {
                    &&& final(self).spec_stage() == DecodeStage::Receive
                    &&& final(self).spec_pending() is None
                    &&& final(queue)@ == pushed(
                        old(queue)@,
                        old(self).spec_pending()->Some_0,
                        old(queue).spec_capacity(),
                    )
                    &&& final(self).spec_pool().model() == if has_key(
                        old(queue)@,
                        old(self).spec_pending()->Some_0.key(),
                    ) {
                        old(self).spec_pool().model().released()
                    } else {
                        old(self).spec_pool().model()
                    }
                }
            },
    {
        match self.stage {
            DecodeStage::Publish => {},
            _ => {
                return DecodeAction::Ignored;
            },
        }
        if shutdown {
            self.drop_pending();
            self.stage = DecodeStage::Drain;
            return DecodeAction::Drain;
        }
        if queue.is_full() {
            return DecodeAction::Park;
        }
        match self.pending.take() {
            Some(frame) => {
                match queue.push(frame) {
                    PushOutcome::Inserted => {},
                    PushOutcome::Duplicate(back) => {
                        let accepted: bool = self.pool.release(back.frame);
                        assert(accepted);
                    },
                    PushOutcome::Full(back) => {
                        let accepted: bool = self.pool.release(back.frame);
                    },
                }
            },
            None => {},
        }
        self.stage = DecodeStage::Receive;
        DecodeAction::ReceiveFrame
    }

    /// The pipeline's own state is as before.
    pub open spec fn same_loop(&self, before: &Self) -> bool {
        &&& self.spec_pool() == before.spec_pool()
        &&& self.spec_stage() == before.spec_stage()
        &&& self.spec_rewind_count() == before.spec_rewind_count()
        &&& self.spec_pending() == before.spec_pending()
        &&& self.spec_fault() == before.spec_fault()
    }

    /// One step of the demuxer's read of the next packet.
    pub fn read(&mut self, event: ReadEvent) -> (step: ReadStep)
        requires
            old(self).wf(),
        ensures
            final(self).wf(),
            final(self).same_loop(old(self)),
            final(self).spec_decoder() == old(self).spec_decoder(),
            final(self).spec_demuxer().spec_video_stream() == old(self).spec_demuxer().spec_video_stream(),
            final(self).spec_demuxer().spec_audio_stream_idx() == old(self).spec_demuxer().spec_audio_stream_idx(),
            step == read_step(
                old(self).spec_demuxer().spec_video_stream().index,
                old(self).spec_demuxer().spec_gaps(),
                event,
            ),
            final(self).spec_demuxer().spec_gaps() == if step != ReadStep::Again {
                0
            } else if event == ReadEvent::Gap {
                old(self).spec_demuxer().spec_gaps() + 1
            } else {
                old(self).spec_demuxer().spec_gaps()
            },
    {
        self.demuxer.read(event)
    }

    /// Reads the container's answer to the request to go back to the start.
    pub fn seek_to_start(&mut self, repositioned: bool) -> (r: Result<(), DemuxError>)
        requires
            old(self).wf(),
        ensures
            final(self).wf(),
            final(self).same_loop(old(self)),
            final(self).spec_decoder() == old(self).spec_decoder(),
            final(self).spec_demuxer().spec_video_stream() == old(self).spec_demuxer().spec_video_stream(),
            final(self).spec_demuxer().spec_audio_stream_idx() == old(self).spec_demuxer().spec_audio_stream_idx(),
            final(self).spec_demuxer().spec_gaps() == 0,
            r is Ok <==> repositioned,
            r is Err ==> r == Err::<(), DemuxError>(DemuxError::SeekFailed),
    {
        self.demuxer.seek_to_start(repositioned)
    }

    /// Starts the drain of the decoder.
    pub fn begin_drain(&mut self)
        requires
            old(self).wf(),
        ensures
            final(self).wf(),
            final(self).same_loop(old(self)),
            final(self).spec_demuxer() == old(self).spec_demuxer(),
            final(self).spec_decoder().spec_drained() == 0,
            final(self).spec_decoder().spec_size() == old(self).spec_decoder().spec_size(),
            final(self).spec_decoder().spec_stream_time_base() == old(self).spec_decoder().spec_stream_time_base(),
            final(self).spec_decoder().spec_decoder_time_base() == old(self).spec_decoder().spec_decoder_time_base(),
            final(self).spec_decoder().spec_converts() == old(self).spec_decoder().spec_converts(),
    {
        self.video_decoder.begin_drain();
    }

    /// One step of the drain of the decoder.
    pub fn drain(&mut self, status: ReceiveStatus) -> (step: DrainStep)
        requires
            old(self).wf(),
        ensures
            final(self).wf(),
            final(self).same_loop(old(self)),
            final(self).spec_demuxer() == old(self).spec_demuxer(),
            step == drain_step(old(self).spec_decoder().spec_drained(), status),
            final(self).spec_decoder().spec_drained() == if step == DrainStep::Continue {
                old(self).spec_decoder().spec_drained() + 1
            } else {
                0
            },
            final(self).spec_decoder().spec_size() == old(self).spec_decoder().spec_size(),
            final(self).spec_decoder().spec_stream_time_base() == old(self).spec_decoder().spec_stream_time_base(),
            final(self).spec_decoder().spec_decoder_time_base() == old(self).spec_decoder().spec_decoder_time_base(),
            final(self).spec_decoder().spec_converts() == old(self).spec_decoder().spec_converts(),
    {
        self.video_decoder.drain(status)
    }

    /// Takes back a buffer that the consumer is done with. A buffer of
    /// another shape than the pool's is refused.
    pub fn release_buffer(&mut self, handle: FramePoolHandle) -> (accepted: bool)
        requires
            old(self).wf(),
        ensures
            final(self).wf(),
            final(self).spec_demuxer() == old(self).spec_demuxer(),
            final(self).spec_decoder() == old(self).spec_decoder(),
            final(self).spec_stage() == old(self).spec_stage(),
            final(self).spec_rewind_count() == old(self).spec_rewind_count(),
            final(self).spec_fault() == old(self).spec_fault(),
            final(self).spec_pending() == old(self).spec_pending(),
            final(self).spec_pool().spec_width() == old(self).spec_pool().spec_width(),
            final(self).spec_pool().spec_height() == old(self).spec_pool().spec_height(),
            accepted == old(self).spec_pool().fits(handle.spec_buffer()),
            final(self).spec_pool().model() == if accepted {
                old(self).spec_pool().model().released()
            } else {
                old(self).spec_pool().model()
            },
    {
        self.pool.release(handle)
    }

    /// Ends the loop for the reason given.
    fn fail(&mut self, why: DecodeFault) -> (action: DecodeAction)
        requires
            old(self).spec_pending() is None,
        ensures
            action == DecodeAction::Drain,
            final(self).spec_stage() == DecodeStage::Drain,
            final(self).spec_fault() == Some(why),
            final(self).spec_rewind_count() == old(self).spec_rewind_count(),
            final(self).spec_pending() is None,
            final(self).spec_pool() == old(self).spec_pool(),
            final(self).spec_demuxer() == old(self).spec_demuxer(),
            final(self).spec_decoder() == old(self).spec_decoder(),
    {
        self.fault = Some(why);
        self.stage = DecodeStage::Drain;
        DecodeAction::Drain
    }

    /// Hands the frame that waits, if any, back to the pool.
    fn drop_pending(&mut self)
        requires
            old(self).spec_pool().wf(),
            old(self).spec_pending() matches Some(frame) ==> old(self).spec_pool().fits(
                frame.frame.spec_buffer(),
            ),
        ensures
            final(self).spec_pending() is None,
            final(self).spec_pool().wf(),
            final(self).spec_pool().spec_width() == old(self).spec_pool().spec_width(),
            final(self).spec_pool().spec_height() == old(self).spec_pool().spec_height(),
            final(self).spec_pool().model() == if old(self).spec_pending() is Some {
                old(self).spec_pool().model().released()
            } else {
                old(self).spec_pool().model()
            },
            final(self).spec_stage() == old(self).spec_stage(),
            final(self).spec_fault() == old(self).spec_fault(),
            final(self).spec_rewind_count() == old(self).spec_rewind_count(),
            final(self).spec_demuxer() == old(self).spec_demuxer(),
            final(self).spec_decoder() == old(self).spec_decoder(),
    {
        match self.pending.take() {
            Some(frame) => {
                let accepted: bool = self.pool.release(frame.frame);
                assert(accepted);
            },
            None => {},
        }
    }

    pub fn demuxer(&self) -> (d: &Demuxer)
        ensures
            *d == self.spec_demuxer(),
    {
        &self.demuxer
    }

    pub fn video_decoder(&self) -> (d: &VideoDecoder)
        ensures
            *d == self.spec_decoder(),
    {
        &self.video_decoder
    }

    pub fn pool(&self) -> (p: &FramePool)
        ensures
            *p == self.spec_pool(),
    {
        &self.pool
    }
}

/// The rewind count grows by exactly one with each rewind of the stream and
/// changes at no other time; and the stream is rewound only while the count
/// can still grow.
pub proof fn lemma_rewinds_are_counted(
    stage: DecodeStage,
    rewind_count: u32,
    fault: Option<DecodeFault>,
    event: DecodeEvent,
    shutdown: bool,
    usable: bool,
)
    requires
        stage is Rewind ==> rewind_count < u32::MAX,
    ensures
        ({
            let t = transition(stage, rewind_count, fault, event, shutdown, usable);
            let rewound = stage is Rewind && !shutdown && (event matches DecodeEvent::Rewound(
                Ok(_),
            ));
            &&& rewound ==> t.rewind_count == rewind_count + 1
            &&& !rewound ==> t.rewind_count == rewind_count
            &&& t.action is SeekToStart ==> rewind_count < u32::MAX && t.stage is Rewind
        }),
{
}

/// A pipeline that has stopped stays stopped, and the decoder is drained at
/// most once: no event leads from draining or from the end to a second
/// request to drain.
pub proof fn lemma_drained_once(
    stage: DecodeStage,
    rewind_count: u32,
    fault: Option<DecodeFault>,
    event: DecodeEvent,
    shutdown: bool,
    usable: bool,
)
    requires
        stage is Drain || stage is Stopped,
    ensures
        ({
            let t = transition(stage, rewind_count, fault, event, shutdown, usable);
            &&& !(t.action is Drain)
            &&& t.stage is Drain || t.stage is Stopped
            &&& stage is Stopped ==> t.stage is Stopped
        }),
{
}

/// Backpressure and wake-up. Before a queue at capacity the producer waits.
/// Once the consumer has taken one frame there is room for exactly one: a
/// frame with a new key is queued, the queue is at capacity again, and the
/// producer waits with its next frame. A frame whose key is queued already
/// is not queued a second time; it leaves the room to the frame after it.
pub proof fn lemma_backpressure_wake_up(
    queue: Seq<TimedVideoFrame>,
    frame: TimedVideoFrame,
    capacity: int,
)
    requires
        strictly_ordered(queue),
        queue.len() == capacity,
        capacity > 0,
    ensures
        publish_action(queue.len() as int, capacity) == DecodeAction::Park,
        publish_action(queue.drop_first().len() as int, capacity) == DecodeAction::ReceiveFrame,
        !has_key(queue.drop_first(), frame.key()) ==> {
            &&& pushed(queue.drop_first(), frame, capacity).len() == capacity
            &&& has_key(pushed(queue.drop_first(), frame, capacity), frame.key())
            &&& publish_action(pushed(queue.drop_first(), frame, capacity).len() as int, capacity)
                == DecodeAction::Park
        },
        has_key(queue.drop_first(), frame.key()) ==> {
            &&& pushed(queue.drop_first(), frame, capacity) == queue.drop_first()
            &&& publish_action(pushed(queue.drop_first(), frame, capacity).len() as int, capacity)
                == DecodeAction::ReceiveFrame
        },
{
    let rest = queue.drop_first();
    assert forall|i: int, j: int| 0 <= i < j < rest.len() implies crate::frames::key_lt(
        #[trigger] rest[i].key(),
        #[trigger] rest[j].key(),
    ) by {
        assert(rest[i] == queue[i + 1] && rest[j] == queue[j + 1]);
    }
    if !has_key(rest, frame.key()) {
        lemma_rank_splits(rest, frame.key());
        let r = rank(rest, frame.key());
        assert(pushed(rest, frame, capacity)[r] == frame);
    }
}

} // verus!
