//! The decoder's side of the pipeline: what a decoded image is, when stream
//! parameters are acceptable, and how the decoder's answers are read.

use vstd::prelude::*;
use crate::utils::{rescalable, rescale_q, rescaled, usable_time_base, Rational};
use crate::video_backend_consts::{EAGAIN, MAX_DRAIN_ITERATIONS};

verus! {

/// Why the decoder could not be made or gave no frame.
#[derive(Clone, Copy, Debug, PartialEq, Eq, Structural)]
pub enum DecodeError {
    /// The stream names no pixel format, or a width or height of zero.
    InvalidParameters,
    /// The decoder is fully drained.
    Eof,
    /// Any other fault of the decoder.
    Other,
}

/// What the logic reads of a pixel format.
#[derive(Clone, Copy, Debug, PartialEq, Eq, Structural)]
pub enum PixelFormat {
    /// No format is known.
    Unknown,
    /// Interleaved 8-bit red, green, blue.
    Rgb24,
    /// Any other format; it is converted before frames are handed on.
    Other,
}

/// What a container says of one of its streams.
#[derive(Clone, Copy, Debug, PartialEq, Eq, Structural)]
pub struct StreamParameters {
    pub index: usize,
    pub format: PixelFormat,
    pub width: u32,
    pub height: u32,
    /// The stream's time base.
    pub time_base: Rational,
    /// The time base that the codec reports.
    pub codec_time_base: Rational,
    pub avg_frame_rate: Rational,
}

impl StreamParameters {
    /// A decoder can be made for the stream.
    pub open spec fn decodable(&self) -> bool {
        &&& self.format != PixelFormat::Unknown
        &&& self.width != 0
        &&& self.height != 0
    }
}

/// One decoded picture in interleaved RGB24: `height` rows, each starting
/// `linesize` bytes after the one before and holding `width * 3` bytes of
/// pixels.
pub struct DecodedImage {
    pub width: u32,
    pub height: u32,
    pub linesize: usize,
    pub data: Vec<u8>,
    /// Presentation timestamp, in the stream's time base.
    pub pts: Option<i64>,
    /// Best-effort timestamp, in the stream's time base.
    pub timestamp: Option<i64>,
}

impl DecodedImage {
    /// Bytes of pixels in one row.
    pub open spec fn row_len(&self) -> int {
        self.width * 3
    }

    /// Every row lies inside `data`.
    pub open spec fn well_formed(&self) -> bool {
        &&& self.row_len() <= self.linesize
        &&& self.height > 0 ==> (self.height - 1) * self.linesize + self.row_len()
            <= self.data@.len()
    }

    /// The byte at column `col` of row `row`.
    pub open spec fn sample(&self, row: int, col: int) -> u8 {
        self.data@[row * self.linesize + col]
    }

    /// The timestamp that orders this image: the best-effort timestamp, else
    /// the presentation timestamp, else zero.
    pub open spec fn ordering_timestamp(&self) -> i64 {
        match self.timestamp {
            Some(t) => t,
            None => match self.pts {
                Some(p) => p,
                None => 0,
            },
        }
    }

    pub fn is_well_formed(&self) -> (b: bool)
        ensures
            b == self.well_formed(),
    {
        let row_len: u128 = self.width as u128 * 3;
        if row_len > self.linesize as u128 {
            return false;
        }
        if self.height == 0 {
            return true;
        }
        assert((self.height - 1) * self.linesize <= 0xffff_ffff * 0xffff_ffff_ffff_ffff)
            by (nonlinear_arith)
            requires
                0 <= self.height - 1 <= 0xffff_ffff,
                0 <= self.linesize <= 0xffff_ffff_ffff_ffff,
        ;
        let needed: u128 = (self.height - 1) as u128 * self.linesize as u128 + row_len;
        needed <= self.data.len() as u128
    }

    pub fn presentation_timestamp(&self) -> (t: i64)
        ensures
            t == self.ordering_timestamp(),
    {
        match self.timestamp {
            Some(t) => t,
            None => match self.pts {
                Some(p) => p,
                None => 0,
            },
        }
    }
}

/// What the codec answered when asked for a frame.
pub enum ReceiveStatus {
    /// A picture, with its timestamps in the decoder's time base.
    Frame(DecodedImage),
    /// The end of the stream.
    Eof,
    /// A POSIX error code.
    Errno(i32),
    /// Any other failure.
    Failure,
}

/// What to do next while draining.
#[derive(Clone, Copy, Debug, PartialEq, Eq, Structural)]
pub enum DrainStep {
    /// Ask the codec for another frame.
    Continue,
    /// The codec reported the end of the stream.
    Finished,
    /// The codec failed; draining stops.
    Failed,
    /// The ceiling on drained frames is reached; draining stops.
    CeilingReached,
}

/// The decoder's settings and its progress through a drain.
pub struct VideoDecoder {
    width: u32,
    height: u32,
    stream_time_base: Rational,
    decoder_time_base: Rational,
    converts: bool,
    drained: u32,
}

impl VideoDecoder {
    pub closed spec fn spec_size(&self) -> (u32, u32) {
        (self.width, self.height)
    }

    pub closed spec fn spec_stream_time_base(&self) -> Rational {
        self.stream_time_base
    }

    pub closed spec fn spec_decoder_time_base(&self) -> Rational {
        self.decoder_time_base
    }

    /// Whether decoded pictures are converted to RGB24.
    pub closed spec fn spec_converts(&self) -> bool {
        self.converts
    }

    /// Frames taken from the codec since the drain began.
    pub closed spec fn spec_drained(&self) -> int {
        self.drained as int
    }

    pub closed spec fn wf(&self) -> bool {
        self.drained < MAX_DRAIN_ITERATIONS
    }

    /// The decoder for a stream. A time base of zero, the stream's or the
    /// codec's, is replaced by the reciprocal of the stream's average frame
    /// rate.
    pub fn new(stream: &StreamParameters) -> (r: Result<Self, DecodeError>)
        ensures
            r is Ok <==> stream.decodable(),
            r is Err ==> r == Err::<Self, DecodeError>(DecodeError::InvalidParameters),
            r matches Ok(d) ==> {
                &&& d.wf()
                &&& d.spec_size() == (stream.width, stream.height)
                &&& d.spec_stream_time_base() == usable_time_base(
                    stream.time_base,
                    stream.avg_frame_rate,
                )
                &&& d.spec_decoder_time_base() == usable_time_base(
                    stream.codec_time_base,
                    stream.avg_frame_rate,
                )
                &&& d.spec_converts() == (stream.format != PixelFormat::Rgb24)
                &&& d.spec_drained() == 0
            },
    {
        if stream.format == PixelFormat::Unknown || stream.width == 0 || stream.height == 0 {
            return Err(DecodeError::InvalidParameters);
        }
        let stream_time_base: Rational = stream.time_base.or_frame_interval(stream.avg_frame_rate);
        let decoder_time_base: Rational = stream.codec_time_base.or_frame_interval(
            stream.avg_frame_rate,
        );
        Ok(
            VideoDecoder {
                width: stream.width,
                height: stream.height,
                stream_time_base,
                decoder_time_base,
                converts: stream.format != PixelFormat::Rgb24,
                drained: 0,
            },
        )
    }

    pub fn stream_time_base(&self) -> (t: Rational)
        ensures
            t == self.spec_stream_time_base(),
    {
        self.stream_time_base
    }

    pub fn decoder_time_base(&self) -> (t: Rational)
        ensures
            t == self.spec_decoder_time_base(),
    {
        self.decoder_time_base
    }

    /// Width and height of the decoded pictures.
    pub fn size(&self) -> (s: (u32, u32))
        ensures
            s == self.spec_size(),
    {
        (self.width, self.height)
    }

    pub fn needs_conversion(&self) -> (b: bool)
        ensures
            b == self.spec_converts(),
    {
        self.converts
    }

    /// Reads the codec's answer to a packet that was submitted with its
    /// timestamps brought from the stream's time base into the decoder's.
    pub fn feed(&self, accepted: bool) -> (r: Result<(), DecodeError>)
        ensures
            r is Ok <==> accepted,
            r is Err ==> r == Err::<(), DecodeError>(DecodeError::Other),
    {
        if accepted {
            Ok(())
        } else {
            Err(DecodeError::Other)
        }
    }

    /// Whether the presentation timestamp of `image`, if it has one, can be
    /// brought into the stream's time base.
    pub open spec fn restampable(&self, image: &DecodedImage) -> bool {
        image.pts matches Some(p) ==> rescalable(
            p as int,
            self.spec_decoder_time_base(),
            self.spec_stream_time_base(),
        )
    }

    /// Brings the presentation timestamp of a decoded picture from the
    /// decoder's time base into the stream's. Nothing else changes.
    pub fn process_decoded_frame(&self, image: DecodedImage) -> (r: Result<
        DecodedImage,
        DecodeError,
    >)
        ensures
            r is Ok <==> self.restampable(&image),
            r is Err ==> r == Err::<DecodedImage, DecodeError>(DecodeError::Other),
            r matches Ok(out) ==> {
                &&& out.width == image.width
                &&& out.height == image.height
                &&& out.linesize == image.linesize
                &&& out.data == image.data
                &&& out.timestamp == image.timestamp
                &&& out.pts == match image.pts {
                    Some(p) => Some(
                        rescaled(
                            p as int,
                            self.spec_decoder_time_base(),
                            self.spec_stream_time_base(),
                        ) as i64,
                    ),
                    None => None,
                }
            },
    {
        match image.pts {
            None => Ok(image),
            Some(p) => match rescale_q(p, self.decoder_time_base, self.stream_time_base) {
                Some(t) => Ok(
                    DecodedImage {
                        width: image.width,
                        height: image.height,
                        linesize: image.linesize,
                        data: image.data,
                        pts: Some(t),
                        timestamp: image.timestamp,
                    },
                ),
                None => Err(DecodeError::Other),
            },
        }
    }

    /// Reads the codec's answer: a frame is handed on with its timestamp in
    /// the stream's time base; "try again" means that more input is needed and
    /// is no error; the end of the stream and every other answer are errors.
    pub fn receive_frame(&self, status: ReceiveStatus) -> (r: Result<
        Option<DecodedImage>,
        DecodeError,
    >)
        ensures
            match status {
                ReceiveStatus::Frame(image) => r == match self.process_decoded_frame_spec(image) {
                    Some(out) => Ok::<Option<DecodedImage>, DecodeError>(Some(out)),
                    None => Err::<Option<DecodedImage>, DecodeError>(DecodeError::Other),
                },
                ReceiveStatus::Eof => r == Err::<Option<DecodedImage>, DecodeError>(
                    DecodeError::Eof,
                ),
                ReceiveStatus::Errno(errno) => r == if errno == EAGAIN {
                    Ok::<Option<DecodedImage>, DecodeError>(None)
                } else {
                    Err::<Option<DecodedImage>, DecodeError>(DecodeError::Other)
                },
                ReceiveStatus::Failure => r == Err::<Option<DecodedImage>, DecodeError>(
                    DecodeError::Other,
                ),
            },
    {
        match status {
            ReceiveStatus::Frame(image) => match self.process_decoded_frame(image) {
                Ok(out) => Ok(Some(out)),
                Err(e) => Err(e),
            },
            ReceiveStatus::Eof => Err(DecodeError::Eof),
            ReceiveStatus::Errno(errno) => if errno == EAGAIN {
                Ok(None)
            } else {
                Err(DecodeError::Other)
            },
            ReceiveStatus::Failure => Err(DecodeError::Other),
        }
    }

    /// The picture that `process_decoded_frame` hands on for `image`, if any.
    pub open spec fn process_decoded_frame_spec(&self, image: DecodedImage) -> Option<
        DecodedImage,
    > {
        if self.restampable(&image) {
            Some(
                DecodedImage {
                    width: image.width,
                    height: image.height,
                    linesize: image.linesize,
                    data: image.data,
                    timestamp: image.timestamp,
                    pts: match image.pts {
                        Some(p) => Some(
                            rescaled(
                                p as int,
                                self.spec_decoder_time_base(),
                                self.spec_stream_time_base(),
                            ) as i64,
                        ),
                        None => None,
                    },
                },
            )
        } else {
            None
        }
    }

    /// Starts a drain: the count of drained frames is zero again.
    pub fn begin_drain(&mut self)
        ensures
            final(self).wf(),
            final(self).spec_drained() == 0,
            final(self).spec_size() == old(self).spec_size(),
            final(self).spec_stream_time_base() == old(self).spec_stream_time_base(),
            final(self).spec_decoder_time_base() == old(self).spec_decoder_time_base(),
            final(self).spec_converts() == old(self).spec_converts(),
    {
        self.drained = 0;
    }

    /// One step of draining, after end-of-input was signalled: a frame is
    /// dropped and counted, and the drain goes on until the count reaches
    /// its ceiling; the end of the stream ends the drain, and so does any
    /// failure. When the drain ends the count is zero again.
    pub fn drain(&mut self, status: ReceiveStatus) -> (step: DrainStep)
        requires
            old(self).wf(),
        ensures
            final(self).wf(),
            final(self).spec_size() == old(self).spec_size(),
            final(self).spec_stream_time_base() == old(self).spec_stream_time_base(),
            final(self).spec_decoder_time_base() == old(self).spec_decoder_time_base(),
            final(self).spec_converts() == old(self).spec_converts(),
            step == drain_step(old(self).spec_drained(), status),
            final(self).spec_drained() == if step == DrainStep::Continue {
                old(self).spec_drained() + 1
            } else {
                0
            },
    {
        match status {
            ReceiveStatus::Frame(_) => {
                if self.drained + 1 >= MAX_DRAIN_ITERATIONS {
                    self.drained = 0;
                    DrainStep::CeilingReached
                } else {
                    self.drained = self.drained + 1;
                    DrainStep::Continue
                }
            },
            ReceiveStatus::Eof => {
                self.drained = 0;
                DrainStep::Finished
            },
            _ => {
                self.drained = 0;
                DrainStep::Failed
            },
        }
    }
}

/// What a drain does after `drained` frames when the codec answers `status`.
pub open spec fn drain_step(drained: int, status: ReceiveStatus) -> DrainStep {
    match status {
        ReceiveStatus::Frame(_) => if drained + 1 >= MAX_DRAIN_ITERATIONS {
            DrainStep::CeilingReached
        } else {
            DrainStep::Continue
        },
        ReceiveStatus::Eof => DrainStep::Finished,
        _ => DrainStep::Failed,
    }
}

} // verus!
