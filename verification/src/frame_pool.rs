//! A pool of reusable frame buffers, and the handle that holds one of them
//! while it is in flight.

use vstd::prelude::*;
use crate::decoder::DecodedImage;
use crate::utils::{rgb24_len, rgb24_size, FrameArray};

verus! {

/// Why a decoded image could not be copied into a buffer.
#[derive(Clone, Copy, Debug, PartialEq, Eq, Structural)]
pub enum FillError {
    /// The buffer's shape is not `(height, width, 3)` of the image.
    ShapeMismatch,
    /// The image's rows do not lie inside its data.
    CopyFailed,
}

/// `bytes` is the image's pixels, row after row, without padding.
pub open spec fn is_packed_copy(bytes: Seq<u8>, image: &DecodedImage) -> bool {
    &&& bytes.len() == rgb24_len(image.height as int, image.width as int)
    &&& forall|row: int, col: int|
        0 <= row < image.height && 0 <= col < image.row_len() ==> #[trigger] bytes[row
            * image.row_len() + col] == image.sample(row, col)
}

/// A buffer checked out of a [`FramePool`]. It is handed back with
/// [`FramePool::release`].
pub struct FramePoolHandle {
    buffer: FrameArray,
}

impl View for FramePoolHandle {
    type V = Seq<u8>;

    closed spec fn view(&self) -> Seq<u8> {
        self.buffer@
    }
}

impl FramePoolHandle {
    pub closed spec fn spec_buffer(&self) -> FrameArray {
        self.buffer
    }

    pub open spec fn wf(&self) -> bool {
        self.spec_buffer().wf()
    }

    /// Whether the held buffer has the shape of `image`.
    pub open spec fn shape_matches(&self, image: &DecodedImage) -> bool {
        &&& self.spec_buffer().spec_height() == image.height
        &&& self.spec_buffer().spec_width() == image.width
    }

    pub fn buffer(&self) -> (b: &FrameArray)
        ensures
            *b == self.spec_buffer(),
    {
        &self.buffer
    }

    pub fn buffer_mut(&mut self) -> (b: &mut FrameArray)
        ensures
            *b == old(self).spec_buffer(),
            final(self).spec_buffer() == *final(b),
    {
        &mut self.buffer
    }

    /// Copies the image's pixels into the held buffer. Fails, leaving the
    /// buffer as it was, when the shapes differ or the image is malformed.
    pub fn fill_with(&mut self, image: &DecodedImage) -> (r: Result<(), FillError>)
        requires
            old(self).wf(),
        ensures
            final(self).wf(),
            final(self).spec_buffer().spec_height() == old(self).spec_buffer().spec_height(),
            final(self).spec_buffer().spec_width() == old(self).spec_buffer().spec_width(),
            r is Ok <==> old(self).shape_matches(image) && image.well_formed(),
            r is Ok ==> is_packed_copy(final(self)@, image),
            r is Err ==> final(self)@ == old(self)@,
            r == Err::<(), FillError>(FillError::ShapeMismatch) <==> !old(self).shape_matches(
                image,
            ),
    {
        let shape: (usize, usize, usize) = self.buffer.shape();
        if shape.0 != image.height as usize || shape.1 != image.width as usize {
            return Err(FillError::ShapeMismatch);
        }
        if !image.is_well_formed() {
            return Err(FillError::CopyFailed);
        }
        let height: usize = image.height as usize;
        let row_len: usize = image.width as usize * 3;
        proof {
            self.buffer.lemma_wf_len();
            assert(height * row_len == rgb24_len(height as int, image.width as int))
                by (nonlinear_arith)
                requires
                    row_len == image.width * 3,
            ;
        }
        let data_len: usize = image.data.len();
        let buffer_len: usize = self.buffer.len();
        let mut row: usize = 0;
        while row < height
            invariant
                row <= height,
                height == image.height,
                row_len == image.row_len(),
                data_len == image.data@.len(),
                image.well_formed(),
                self.buffer.wf(),
                self.buffer.spec_height() == old(self).spec_buffer().spec_height(),
                self.buffer.spec_width() == old(self).spec_buffer().spec_width(),
                self.buffer@.len() == height * row_len,
                self.buffer@.len() == buffer_len,
                forall|r: int, c: int|
                    0 <= r < row && 0 <= c < row_len ==> #[trigger] self.buffer@[r * row_len + c]
                        == image.sample(r, c),
            decreases height - row,
        {
            proof {
                assert(row * image.linesize <= (height - 1) * image.linesize) by (nonlinear_arith)
                    requires
                        row <= height - 1,
                        0 <= image.linesize,
                ;
                assert(row * row_len + row_len <= height * row_len) by (nonlinear_arith)
                    requires
                        row + 1 <= height,
                        0 <= row_len,
                ;
            }
            let src: usize = row * image.linesize;
            let dst: usize = row * row_len;
            let mut col: usize = 0;
            while col < row_len
                invariant
                    col <= row_len,
                    row < height,
                    row_len == image.row_len(),
                    src == row * image.linesize,
                    dst == row * row_len,
                    data_len == image.data@.len(),
                    src + row_len <= data_len,
                    dst + row_len <= self.buffer@.len(),
                    self.buffer.wf(),
                    self.buffer.spec_height() == old(self).spec_buffer().spec_height(),
                    self.buffer.spec_width() == old(self).spec_buffer().spec_width(),
                    self.buffer@.len() == height * row_len,
                    self.buffer@.len() == buffer_len,
                    forall|r: int, c: int|
                        0 <= r < row && 0 <= c < row_len ==> #[trigger] self.buffer@[r * row_len
                            + c] == image.sample(r, c),
                    forall|c: int|
                        0 <= c < col ==> #[trigger] self.buffer@[dst + c] == image.sample(
                            row as int,
                            c,
                        ),
                decreases row_len - col,
            {
                let ghost before: Seq<u8> = self.buffer@;
                let value: u8 = image.data[src + col];
                self.buffer.set(dst + col, value);
                proof {
                    assert forall|r: int, c: int| 0 <= r < row && 0 <= c < row_len implies
                        #[trigger] self.buffer@[r * row_len + c] == image.sample(r, c) by {
                        assert(r * row_len + c < row * row_len) by (nonlinear_arith)
                            requires
                                0 <= r < row,
                                0 <= c < row_len,
                        ;
                        assert(before[r * row_len + c] == image.sample(r, c));
                    }
                }
                col = col + 1;
            }
            proof {
                assert forall|r: int, c: int| 0 <= r < row + 1 && 0 <= c < row_len implies
                    #[trigger] self.buffer@[r * row_len + c] == image.sample(r, c) by {
                    if r == row {
                        assert(self.buffer@[dst + c] == image.sample(row as int, c));
                    }
                }
            }
            row = row + 1;
        }
        Ok(())
    }
}

/// Whether a packed copy of the image can be made: its rows lie inside its
/// data, and the copy fits in memory.
pub open spec fn convertible(image: &DecodedImage) -> bool {
    &&& image.well_formed()
    &&& rgb24_len(image.height as int, image.width as int) <= usize::MAX
}

/// Copies the pixels of a decoded RGB24 image into a frame array of its
/// own, of the image's shape.
pub fn convert_frame_to_ndarray_rgb24(image: &DecodedImage) -> (r: Result<FrameArray, FillError>)
    ensures
        r is Ok <==> convertible(image),
        r is Err ==> r == Err::<FrameArray, FillError>(FillError::CopyFailed),
        r matches Ok(array) ==> {
            &&& array.wf()
            &&& array.spec_height() == image.height
            &&& array.spec_width() == image.width
            &&& is_packed_copy(array@, image)
        },
{
    let height: usize = image.height as usize;
    let width: usize = image.width as usize;
    if rgb24_size(height, width).is_none() {
        return Err(FillError::CopyFailed);
    }
    let mut handle: FramePoolHandle = FramePoolHandle { buffer: FrameArray::zeroed(height, width) };
    match handle.fill_with(image) {
        Ok(()) => Ok(handle.buffer),
        Err(_) => Err(FillError::CopyFailed),
    }
}

/// The pool as two counts: buffers lying free and buffers checked out.
pub struct PoolModel {
    pub free: nat,
    pub in_flight: nat,
}

impl PoolModel {
    /// Buffers that exist, free or checked out.
    pub open spec fn live(self) -> nat {
        self.free + self.in_flight
    }

    /// One buffer leaves: a free one if there is any, else a new one.
    pub open spec fn checked_out(self) -> PoolModel {
        PoolModel {
            free: if self.free > 0 {
                (self.free - 1) as nat
            } else {
                0
            },
            in_flight: self.in_flight + 1,
        }
    }

    /// One buffer comes back.
    pub open spec fn released(self) -> PoolModel {
        PoolModel {
            free: self.free + 1,
            in_flight: if self.in_flight > 0 {
                (self.in_flight - 1) as nat
            } else {
                0
            },
        }
    }
}

/// A bounded set of reusable buffers, all of one shape.
pub struct FramePool {
    buffers: Vec<FrameArray>,
    width: usize,
    height: usize,
    in_flight: Ghost<nat>,
}

impl FramePool {
    /// The free buffers; the last one is handed out next.
    pub closed spec fn spec_free(&self) -> Seq<FrameArray> {
        self.buffers@
    }

    pub closed spec fn spec_width(&self) -> int {
        self.width as int
    }

    pub closed spec fn spec_height(&self) -> int {
        self.height as int
    }

    /// How many handles are out.
    pub closed spec fn in_flight(&self) -> nat {
        self.in_flight@
    }

    pub open spec fn model(&self) -> PoolModel {
        PoolModel { free: self.spec_free().len(), in_flight: self.in_flight() }
    }

    /// Whether `buffer` has this pool's shape.
    pub open spec fn fits(&self, buffer: FrameArray) -> bool {
        &&& buffer.wf()
        &&& buffer.spec_height() == self.spec_height()
        &&& buffer.spec_width() == self.spec_width()
    }

    /// The shape fits in memory and every free buffer has it.
    pub closed spec fn wf(&self) -> bool {
        &&& rgb24_len(self.height as int, self.width as int) <= usize::MAX
        &&& forall|i: int| 0 <= i < self.buffers@.len() ==> self.fits(#[trigger] self.buffers@[i])
    }

    /// A pool of `capacity` zeroed buffers of shape `(height, width, 3)`.
    pub fn new(width: usize, height: usize, capacity: usize) -> (pool: Self)
        requires
            rgb24_len(height as int, width as int) <= usize::MAX,
        ensures
            pool.wf(),
            pool.spec_width() == width,
            pool.spec_height() == height,
            pool.model() == (PoolModel { free: capacity as nat, in_flight: 0 }),
            forall|i: int|
                0 <= i < capacity ==> (#[trigger] pool.spec_free()[i])@ == Seq::new(
                    rgb24_len(height as int, width as int) as nat,
                    |j: int| 0u8,
                ),
    {
        let mut buffers: Vec<FrameArray> = Vec::with_capacity(capacity);
        let mut made: usize = 0;
        while made < capacity
            invariant
                made <= capacity,
                buffers@.len() == made,
                rgb24_len(height as int, width as int) <= usize::MAX,
                forall|i: int|
                    0 <= i < made ==> {
                        &&& (#[trigger] buffers@[i]).wf()
                        &&& buffers@[i].spec_height() == height
                        &&& buffers@[i].spec_width() == width
                        &&& buffers@[i]@ == Seq::new(
                            rgb24_len(height as int, width as int) as nat,
                            |j: int| 0u8,
                        )
                    },
            decreases capacity - made,
        {
            buffers.push(FrameArray::zeroed(height, width));
            made = made + 1;
        }
        FramePool { buffers, width, height, in_flight: Ghost(0) }
    }

    /// How many buffers lie free.
    pub fn available(&self) -> (n: usize)
        ensures
            n == self.model().free,
    {
        self.buffers.len()
    }

    /// Whether the next checkout has to allocate.
    pub fn is_exhausted(&self) -> (b: bool)
        ensures
            b == (self.model().free == 0),
    {
        self.buffers.len() == 0
    }

    pub fn width(&self) -> (w: usize)
        ensures
            w == self.spec_width(),
    {
        self.width
    }

    pub fn height(&self) -> (h: usize)
        ensures
            h == self.spec_height(),
    {
        self.height
    }

    /// Checks a buffer out: the free buffer released last, or, when none is
    /// free, a new zeroed one. Never waits.
    pub fn get_buffer(&mut self) -> (handle: FramePoolHandle)
        requires
            old(self).wf(),
        ensures
            final(self).wf(),
            final(self).spec_width() == old(self).spec_width(),
            final(self).spec_height() == old(self).spec_height(),
            final(self).model() == old(self).model().checked_out(),
            final(self).fits(handle.spec_buffer()),
            old(self).model().free > 0 ==> {
                &&& handle.spec_buffer() == old(self).spec_free().last()
                &&& final(self).spec_free() == old(self).spec_free().drop_last()
            },
            old(self).model().free == 0 ==> {
                &&& handle@ == Seq::new(
                    rgb24_len(old(self).spec_height(), old(self).spec_width()) as nat,
                    |j: int| 0u8,
                )
                &&& final(self).spec_free() == old(self).spec_free()
            },
    {
        let ghost count: nat = self.in_flight@;
        self.in_flight = Ghost(count + 1);
        match self.buffers.pop() {
            Some(buffer) => {
                assert(old(self).fits(old(self).buffers@[old(self).buffers@.len() - 1]));
                FramePoolHandle { buffer }
            },
            None => FramePoolHandle { buffer: FrameArray::zeroed(self.height, self.width) },
        }
    }

    /// Takes a buffer back. A buffer of another shape is refused and the pool
    /// stays as it was.
    pub fn release(&mut self, handle: FramePoolHandle) -> (accepted: bool)
        requires
            old(self).wf(),
        ensures
            final(self).wf(),
            final(self).spec_width() == old(self).spec_width(),
            final(self).spec_height() == old(self).spec_height(),
            accepted == old(self).fits(handle.spec_buffer()),
            accepted ==> {
                &&& final(self).spec_free() == old(self).spec_free().push(handle.spec_buffer())
                &&& final(self).model() == old(self).model().released()
            },
            !accepted ==> {
                &&& final(self).spec_free() == old(self).spec_free()
                &&& final(self).model() == old(self).model()
            },
    {
        let shape: (usize, usize, usize) = handle.buffer.shape();
        let expected: usize = rgb24_size(self.height, self.width).unwrap();
        proof {
            if handle.buffer.wf() {
                handle.buffer.lemma_wf_len();
            }
        }
        if shape.0 == self.height && shape.1 == self.width && handle.buffer.len() == expected {
            proof {
                handle.buffer.lemma_len_wf();
            }
            let ghost count: nat = self.in_flight@;
            self.in_flight = Ghost(
                if count > 0 {
                    (count - 1) as nat
                } else {
                    0
                },
            );
            self.buffers.push(handle.buffer);
            true
        } else {
            false
        }
    }
}

/// What a holder of the pool does with it.
pub enum PoolOp {
    Checkout,
    Release,
}

impl PoolModel {
    pub open spec fn step(self, op: PoolOp) -> PoolModel {
        match op {
            PoolOp::Checkout => self.checked_out(),
            PoolOp::Release => self.released(),
        }
    }

    /// The pool after the operations of `ops`, first to last.
    pub open spec fn run(self, ops: Seq<PoolOp>) -> PoolModel
        decreases ops.len(),
    {
        if ops.len() == 0 {
            self
        } else {
            self.step(ops[0]).run(ops.drop_first())
        }
    }

    /// Steady load on a pool made with `capacity` buffers: a buffer is
    /// checked out only while fewer than `capacity` are out, and only a buffer
    /// that is out is released.
    pub open spec fn steady(self, ops: Seq<PoolOp>, capacity: nat) -> bool
        decreases ops.len(),
    {
        ops.len() > 0 ==> {
            &&& ops[0] is Checkout ==> self.in_flight < capacity
            &&& ops[0] is Release ==> self.in_flight > 0
            &&& self.step(ops[0]).steady(ops.drop_first(), capacity)
        }
    }

    /// No checkout of `ops` finds the free list empty.
    pub open spec fn never_exhausted(self, ops: Seq<PoolOp>) -> bool
        decreases ops.len(),
    {
        ops.len() > 0 ==> {
            &&& ops[0] is Checkout ==> self.free > 0
            &&& self.step(ops[0]).never_exhausted(ops.drop_first())
        }
    }
}

/// Under steady load a pool never allocates: however checkouts and releases
/// alternate, as long as no more than `capacity` buffers are out at once, every
/// checkout finds a free buffer and the number of buffers that exist stays
/// `capacity`.
pub proof fn lemma_pool_reuse(pool: PoolModel, ops: Seq<PoolOp>, capacity: nat)
    requires
        pool.live() == capacity,
        pool.steady(ops, capacity),
    ensures
        pool.never_exhausted(ops),
        pool.run(ops).live() == capacity,
    decreases ops.len(),
{
    if ops.len() > 0 {
        lemma_pool_reuse(pool.step(ops[0]), ops.drop_first(), capacity);
    }
}

} // verus!
