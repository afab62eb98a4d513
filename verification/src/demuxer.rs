//! The demuxer's side of the pipeline: which stream is played, which packets
//! belong to it, and when the container counts as exhausted.

use vstd::prelude::*;
use crate::decoder::StreamParameters;
use crate::utils::{usable_time_base, Rational};
use crate::video_backend_consts::MAX_READ_GAPS;

verus! {

/// Why the demuxer could not be made or moved.
#[derive(Clone, Copy, Debug, PartialEq, Eq, Structural)]
pub enum DemuxError {
    /// The container holds no video stream.
    StreamNotFound,
    /// The container could not be repositioned.
    SeekFailed,
}

/// What the logic reads of a compressed packet.
#[derive(Clone, Copy, Debug, PartialEq, Eq, Structural)]
pub struct PacketInfo {
    /// Index of the stream that the packet belongs to.
    pub stream_index: usize,
    pub pts: Option<i64>,
    pub dts: Option<i64>,
    /// The time base in which the packet counts.
    pub time_base: Rational,
}

/// A packet, by the kind of its stream. A read hands on video packets
/// only.
#[derive(Clone, Copy, Debug, PartialEq, Eq, Structural)]
pub enum Packet {
    Video(PacketInfo),
    Audio(PacketInfo),
}

/// What the container gave when asked for its next packet.
#[derive(Clone, Copy, Debug, PartialEq, Eq, Structural)]
pub enum ReadEvent {
    /// A packet, and the time base of the stream that it belongs to.
    Packet(PacketInfo, Rational),
    /// Nothing: a gap in the data, or its end.
    Gap,
}

/// What a read does next.
#[derive(Clone, Copy, Debug, PartialEq, Eq, Structural)]
pub enum ReadStep {
    /// The read ends with this packet.
    Deliver(Packet),
    /// Ask the container again.
    Again,
    /// The read ends without a packet: the stream is exhausted.
    Exhausted,
}

/// The selected streams and the progress of the read under way.
pub struct Demuxer {
    video_stream: StreamParameters,
    audio_stream_idx: Option<usize>,
    gaps: u32,
}

/// The stream as it is played: a time base of zero is replaced by the
/// reciprocal of the average frame rate.
pub open spec fn with_usable_time_base(stream: StreamParameters) -> StreamParameters {
    StreamParameters {
        time_base: usable_time_base(stream.time_base, stream.avg_frame_rate),
        ..stream
    }
}

/// The packet as it is handed on: a time base of zero is replaced by that of
/// the packet's stream.
pub open spec fn with_stream_time_base(packet: PacketInfo, stream_time_base: Rational)
    -> PacketInfo {
    if packet.time_base.is_degenerate() {
        PacketInfo { time_base: stream_time_base, ..packet }
    } else {
        packet
    }
}

/// What a read that has met `gaps` gaps does on `event`, given the index of
/// the video stream: a packet of the video stream ends the read, a packet of
/// any other stream is passed over, and a gap is borne until it is one too
/// many.
pub open spec fn read_step(video: usize, gaps: int, event: ReadEvent) -> ReadStep {
    match event {
        ReadEvent::Packet(packet, stream_time_base) => {
            if packet.stream_index == video {
                ReadStep::Deliver(Packet::Video(with_stream_time_base(packet, stream_time_base)))
            } else {
                ReadStep::Again
            }
        },
        ReadEvent::Gap => if gaps + 1 > MAX_READ_GAPS {
            ReadStep::Exhausted
        } else {
            ReadStep::Again
        },
    }
}

/// A read hands on the packets of the video stream and no others, and it
/// reports the stream as exhausted at the gap that is one too many and at no
/// other time.
pub proof fn lemma_read_hands_on_video_only(video: usize, gaps: int, event: ReadEvent)
    requires
        0 <= gaps <= MAX_READ_GAPS,
    ensures
        read_step(video, gaps, event) is Deliver <==> (event matches ReadEvent::Packet(p, _)
            && p.stream_index == video),
        read_step(video, gaps, event) matches ReadStep::Deliver(packet) ==> packet is Video,
        read_step(video, gaps, event) is Exhausted <==> event is Gap && gaps == MAX_READ_GAPS,
{
}

impl Demuxer {
    pub closed spec fn spec_video_stream(&self) -> StreamParameters {
        self.video_stream
    }

    pub closed spec fn spec_audio_stream_idx(&self) -> Option<usize> {
        self.audio_stream_idx
    }

    /// Gaps met by the read under way.
    pub closed spec fn spec_gaps(&self) -> int {
        self.gaps as int
    }

    pub closed spec fn wf(&self) -> bool {
        self.gaps <= MAX_READ_GAPS
    }

    /// The demuxer for a container whose best video stream is `video` and
    /// whose best audio stream has the index `audio`. There must be a video
    /// stream.
    pub fn new(video: Option<StreamParameters>, audio: Option<usize>) -> (r: Result<
        Self,
        DemuxError,
    >)
        ensures
            r is Ok <==> video is Some,
            r is Err ==> r == Err::<Self, DemuxError>(DemuxError::StreamNotFound),
            r matches Ok(d) ==> {
                &&& d.wf()
                &&& d.spec_video_stream() == with_usable_time_base(video->Some_0)
                &&& d.spec_audio_stream_idx() == audio
                &&& d.spec_gaps() == 0
            },
    {
        match video {
            None => Err(DemuxError::StreamNotFound),
            Some(stream) => {
                let video_stream: StreamParameters = StreamParameters {
                    index: stream.index,
                    format: stream.format,
                    width: stream.width,
                    height: stream.height,
                    time_base: stream.time_base.or_frame_interval(stream.avg_frame_rate),
                    codec_time_base: stream.codec_time_base,
                    avg_frame_rate: stream.avg_frame_rate,
                };
                Ok(Demuxer { video_stream, audio_stream_idx: audio, gaps: 0 })
            },
        }
    }

    /// The index of the container's best audio stream, if it has one. Its
    /// packets are passed over.
    pub fn audio_stream_idx(&self) -> (i: Option<usize>)
        ensures
            i == self.spec_audio_stream_idx(),
    {
        self.audio_stream_idx
    }

    /// The video stream that is played.
    pub fn video_stream(&self) -> (s: StreamParameters)
        ensures
            s == self.spec_video_stream(),
    {
        self.video_stream
    }

    /// One step of reading the next packet. A packet of the video stream ends
    /// the read; packets of other streams are passed over; a gap is borne
    /// until there have been more than the read can bear, and then the stream
    /// counts as exhausted. When the read ends its count of gaps is zero
    /// again.
    pub fn read(&mut self, event: ReadEvent) -> (step: ReadStep)
        requires
            old(self).wf(),
        ensures
            final(self).wf(),
            final(self).spec_video_stream() == old(self).spec_video_stream(),
            final(self).spec_audio_stream_idx() == old(self).spec_audio_stream_idx(),
            step == read_step(old(self).spec_video_stream().index, old(self).spec_gaps(), event),
            final(self).spec_gaps() == if step != ReadStep::Again {
                0
            } else if event == ReadEvent::Gap {
                old(self).spec_gaps() + 1
            } else {
                old(self).spec_gaps()
            },
    {
        match event {
            ReadEvent::Packet(packet, stream_time_base) => {
                let handed: PacketInfo = if packet.time_base.degenerate() {
                    PacketInfo {
                        stream_index: packet.stream_index,
                        pts: packet.pts,
                        dts: packet.dts,
                        time_base: stream_time_base,
                    }
                } else {
                    packet
                };
                if packet.stream_index == self.video_stream.index {
                    self.gaps = 0;
                    ReadStep::Deliver(Packet::Video(handed))
                } else {
                    ReadStep::Again
                }
            },
            ReadEvent::Gap => {
                if self.gaps + 1 > MAX_READ_GAPS {
                    self.gaps = 0;
                    ReadStep::Exhausted
                } else {
                    self.gaps = self.gaps + 1;
                    ReadStep::Again
                }
            },
        }
    }

    /// Reads the container's answer to a request to go back to the start.
    pub fn seek_to_start(&mut self, repositioned: bool) -> (r: Result<(), DemuxError>)
        ensures
            final(self).spec_video_stream() == old(self).spec_video_stream(),
            final(self).spec_audio_stream_idx() == old(self).spec_audio_stream_idx(),
            final(self).spec_gaps() == 0,
            final(self).wf(),
            r is Ok <==> repositioned,
            r is Err ==> r == Err::<(), DemuxError>(DemuxError::SeekFailed),
    {
        self.gaps = 0;
        if repositioned {
            Ok(())
        } else {
            Err(DemuxError::SeekFailed)
        }
    }
}

} // verus!
