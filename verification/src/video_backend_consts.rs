//! The fixed sizes of the video backend.

use vstd::prelude::*;

verus! {

/// High-water mark: how many decoded frames are queued before the decode
/// thread is suspended. The frame pool is made with as many buffers.
pub const THREAD_FRAME_BUFFER_SIZE: usize = 20;

/// Low-water mark: the fewest queued frames from which playback takes one.
pub const MIN_QUEUED_FRAMES: usize = 16;

/// How many failed reads one call of the demuxer bears; the next one makes
/// it report the stream as exhausted.
pub const MAX_READ_GAPS: u32 = 3;

/// How many frames a drain takes from the decoder before it gives up on
/// seeing the end of the stream.
pub const MAX_DRAIN_ITERATIONS: u32 = 50;

/// The errno with which the decoder says that it needs more input.
pub const EAGAIN: i32 = 11;

} // verus!
