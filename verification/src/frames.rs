//! Decoded frames tagged with their place in playback, and the bounded queue
//! that hands them out in that order.

use vstd::prelude::*;
use crate::frame_pool::FramePoolHandle;

verus! {

/// Where a frame stands in playback: how often the stream had been rewound
/// when it was decoded, then its timestamp in the stream's time base.
pub type FrameKey = (int, int);

/// Whether the key `a` comes strictly before the key `b`: by rewind count
/// first, by timestamp among equal rewind counts.
pub open spec fn key_lt(a: FrameKey, b: FrameKey) -> bool {
    a.0 < b.0 || (a.0 == b.0 && a.1 < b.1)
}

/// Whether the key `a` comes before the key `b` or equals it.
pub open spec fn key_le(a: FrameKey, b: FrameKey) -> bool {
    !key_lt(b, a)
}

/// A decoded frame with its rewind count and timestamp.
pub struct TimedVideoFrame {
    pub frame: FramePoolHandle,
    pub rewind_count: u32,
    pub timestamp: i64,
}

impl TimedVideoFrame {
    pub open spec fn key(&self) -> FrameKey {
        (self.rewind_count as int, self.timestamp as int)
    }

    pub fn new(frame: FramePoolHandle, timestamp: i64, rewind_count: u32) -> (f: Self)
        ensures
            f.frame == frame,
            f.timestamp == timestamp,
            f.rewind_count == rewind_count,
    {
        TimedVideoFrame { frame, rewind_count, timestamp }
    }

    /// Whether this frame is delivered strictly before `other`.
    pub fn sorts_before(&self, other: &TimedVideoFrame) -> (b: bool)
        ensures
            b == key_lt(self.key(), other.key()),
    {
        self.rewind_count < other.rewind_count || (self.rewind_count == other.rewind_count
            && self.timestamp < other.timestamp)
    }

    /// Whether both frames have the same rewind count and timestamp.
    pub fn same_key(&self, other: &TimedVideoFrame) -> (b: bool)
        ensures
            b == (self.key() == other.key()),
    {
        self.rewind_count == other.rewind_count && self.timestamp == other.timestamp
    }
}

/// Each frame comes strictly before every later one: the frames are in
/// delivery order and no two share a key.
pub open spec fn strictly_ordered(s: Seq<TimedVideoFrame>) -> bool {
    forall|i: int, j: int| 0 <= i < j < s.len() ==> key_lt(#[trigger] s[i].key(), #[trigger] s[j].key())
}

/// Whether some frame of `s` has the key `key`.
pub open spec fn has_key(s: Seq<TimedVideoFrame>, key: FrameKey) -> bool {
    exists|i: int| 0 <= i < s.len() && #[trigger] s[i].key() == key
}

/// How many frames of `s` come strictly before `key`.
pub open spec fn rank(s: Seq<TimedVideoFrame>, key: FrameKey) -> int
    decreases s.len(),
{
    if s.len() == 0 {
        0
    } else {
        rank(s.drop_last(), key) + if key_lt(s.last().key(), key) {
            1int
        } else {
            0int
        }
    }
}

/// The queue `s` of capacity `capacity` after `frame` is offered to it: as
/// before when a frame with that key is queued or the queue is full, else with
/// `frame` behind the frames that come before it.
pub open spec fn pushed(s: Seq<TimedVideoFrame>, frame: TimedVideoFrame, capacity: int) -> Seq<
    TimedVideoFrame,
> {
    if has_key(s, frame.key()) || s.len() >= capacity {
        s
    } else {
        s.insert(rank(s, frame.key()), frame)
    }
}

/// What became of a frame offered to the queue.
pub enum PushOutcome {
    /// The frame is queued.
    Inserted,
    /// A frame with the same key is queued already; the offered one comes back.
    Duplicate(TimedVideoFrame),
    /// The queue is at capacity; the offered frame comes back.
    Full(TimedVideoFrame),
}

/// The outcome that `pushed` stands for.
pub open spec fn push_outcome(s: Seq<TimedVideoFrame>, frame: TimedVideoFrame, capacity: int)
    -> PushOutcome {
    if has_key(s, frame.key()) {
        PushOutcome::Duplicate(frame)
    } else if s.len() >= capacity {
        PushOutcome::Full(frame)
    } else {
        PushOutcome::Inserted
    }
}

/// In an ordered `s`, the frames before index `i` come before `key` and the
/// others do not: then `i` is the rank of `key`.
pub proof fn lemma_rank_is_split(s: Seq<TimedVideoFrame>, key: FrameKey, i: int)
    requires
        0 <= i <= s.len(),
        forall|j: int| 0 <= j < i ==> key_lt(#[trigger] s[j].key(), key),
        forall|j: int| i <= j < s.len() ==> !key_lt(#[trigger] s[j].key(), key),
    ensures
        rank(s, key) == i,
    decreases s.len(),
{
    if s.len() > 0 {
        let t = s.drop_last();
        if i == s.len() {
            lemma_rank_is_split(t, key, i - 1);
        } else {
            lemma_rank_is_split(t, key, i);
        }
    }
}

/// The queue `s` after the frames of `frames` are offered to it, first to last.
pub open spec fn pushed_all(s: Seq<TimedVideoFrame>, frames: Seq<TimedVideoFrame>, capacity: int)
    -> Seq<TimedVideoFrame>
    decreases frames.len(),
{
    if frames.len() == 0 {
        s
    } else {
        pushed(pushed_all(s, frames.drop_last(), capacity), frames.last(), capacity)
    }
}

/// The frames of `frames` that come back when they are offered to `s`, first
/// to last: duplicates, and frames that found the queue full.
pub open spec fn refused_all(s: Seq<TimedVideoFrame>, frames: Seq<TimedVideoFrame>, capacity: int)
    -> Seq<TimedVideoFrame>
    decreases frames.len(),
{
    if frames.len() == 0 {
        Seq::empty()
    } else {
        let earlier = refused_all(s, frames.drop_last(), capacity);
        let queue = pushed_all(s, frames.drop_last(), capacity);
        if push_outcome(queue, frames.last(), capacity) is Inserted {
            earlier
        } else {
            earlier.push(frames.last())
        }
    }
}

/// A bounded queue of frames that delivers the frame with the least key
/// first and holds no two frames with one key.
pub struct OrderedFramesContainer {
    frames: Vec<TimedVideoFrame>,
    capacity: usize,
}

impl View for OrderedFramesContainer {
    type V = Seq<TimedVideoFrame>;

    /// The queued frames, the next one to be delivered first.
    closed spec fn view(&self) -> Seq<TimedVideoFrame> {
        self.frames@
    }
}

impl OrderedFramesContainer {
    /// The most frames the queue holds.
    pub closed spec fn spec_capacity(&self) -> int {
        self.capacity as int
    }

    /// In delivery order, without duplicate keys, within capacity.
    pub open spec fn wf(&self) -> bool {
        &&& strictly_ordered(self@)
        &&& self@.len() <= self.spec_capacity()
    }

    /// An empty queue without a bound of its own.
    pub fn new() -> (q: Self)
        ensures
            q.wf(),
            q@.len() == 0,
            q.spec_capacity() == usize::MAX,
    {
        OrderedFramesContainer { frames: Vec::new(), capacity: usize::MAX }
    }

    /// An empty queue that holds at most `capacity` frames.
    pub fn with_capacity(capacity: usize) -> (q: Self)
        ensures
            q.wf(),
            q@.len() == 0,
            q.spec_capacity() == capacity,
    {
        OrderedFramesContainer { frames: Vec::new(), capacity }
    }

    pub fn capacity(&self) -> (c: usize)
        ensures
            c == self.spec_capacity(),
    {
        self.capacity
    }

    pub fn len(&self) -> (n: usize)
        ensures
            n == self@.len(),
    {
        self.frames.len()
    }

    pub fn is_empty(&self) -> (b: bool)
        ensures
            b == (self@.len() == 0),
    {
        self.frames.len() == 0
    }

    /// Whether an offered frame would come back as `Full`.
    pub fn is_full(&self) -> (b: bool)
        ensures
            b == (self@.len() >= self.spec_capacity()),
    {
        self.frames.len() >= self.capacity
    }

    /// The frame that `pop` would deliver.
    pub fn peek(&self) -> (r: Option<&TimedVideoFrame>)
        ensures
            self@.len() == 0 ==> r is None,
            self@.len() > 0 ==> r == Some(&self@[0]),
    {
        if self.frames.len() == 0 {
            None
        } else {
            Some(&self.frames[0])
        }
    }

    /// Removes and returns the frame with the least key.
    pub fn pop(&mut self) -> (r: Option<TimedVideoFrame>)
        requires
            old(self).wf(),
        ensures
            final(self).wf(),
            final(self).spec_capacity() == old(self).spec_capacity(),
            old(self)@.len() == 0 ==> r is None && final(self)@ == old(self)@,
            old(self)@.len() > 0 ==> r == Some(old(self)@[0]) && final(self)@ == old(self)@.drop_first(),
            r matches Some(f) ==> forall|i: int|
                0 <= i < final(self)@.len() ==> key_lt(f.key(), #[trigger] final(self)@[i].key()),
    {
        if self.frames.len() == 0 {
            None
        } else {
            let frame: TimedVideoFrame = self.frames.remove(0);
            proof {
                assert(self.frames@ =~= old(self).frames@.drop_first());
                assert forall|i: int| 0 <= i < self.frames@.len() implies key_lt(
                    frame.key(),
                    #[trigger] self.frames@[i].key(),
                ) by {
                    assert(self.frames@[i] == old(self).frames@[i + 1]);
                }
                assert forall|i: int, j: int| 0 <= i < j < self.frames@.len() implies key_lt(
                    #[trigger] self.frames@[i].key(),
                    #[trigger] self.frames@[j].key(),
                ) by {
                    assert(self.frames@[i] == old(self).frames@[i + 1]);
                    assert(self.frames@[j] == old(self).frames@[j + 1]);
                }
            }
            Some(frame)
        }
    }

    /// Offers a frame to the queue. A frame whose key is queued already is
    /// handed back, and so is any frame while the queue is at capacity;
    /// another frame is queued behind the frames that come before it.
    pub fn push(&mut self, frame: TimedVideoFrame) -> (r: PushOutcome)
        requires
            old(self).wf(),
        ensures
            final(self).wf(),
            final(self).spec_capacity() == old(self).spec_capacity(),
            final(self)@ == pushed(old(self)@, frame, old(self).spec_capacity()),
            r == push_outcome(old(self)@, frame, old(self).spec_capacity()),
    {
        let n: usize = self.frames.len();
        let mut i: usize = 0;
        while i < n && self.frames[i].sorts_before(&frame)
            invariant
                i <= n,
                n == self.frames@.len(),
                self.frames@ == old(self).frames@,
                forall|j: int| 0 <= j < i ==> key_lt(#[trigger] self.frames@[j].key(), frame.key()),
            decreases n - i,
        {
            i = i + 1;
        }
        let ghost s: Seq<TimedVideoFrame> = self.frames@;
        if i < n && self.frames[i].same_key(&frame) {
            assert(s[i as int].key() == frame.key());
            return PushOutcome::Duplicate(frame);
        }
        proof {
            assert forall|j: int| i <= j < s.len() implies !key_lt(
                #[trigger] s[j].key(),
                frame.key(),
            ) && s[j].key() != frame.key() by {
                if j > i {
                    assert(key_lt(s[i as int].key(), s[j].key()));
                }
            }
            assert(!has_key(s, frame.key())) by {
                if has_key(s, frame.key()) {
                    let j = choose|j: int| 0 <= j < s.len() && #[trigger] s[j].key() == frame.key();
                    if j < i {
                        assert(key_lt(s[j].key(), frame.key()));
                    }
                }
            }
            lemma_rank_is_split(s, frame.key(), i as int);
        }
        if n >= self.capacity {
            return PushOutcome::Full(frame);
        }
        self.frames.insert(i, frame);
        proof {
            let t = self.frames@;
            assert(t == s.insert(i as int, frame));
            assert forall|a: int, b: int| 0 <= a < b < t.len() implies key_lt(
                #[trigger] t[a].key(),
                #[trigger] t[b].key(),
            ) by {
                let ka = if a < i { a } else { a - 1 };
                let kb = if b < i { b } else { b - 1 };
                if a != i {
                    assert(t[a] == s[ka]);
                }
                if b != i {
                    assert(t[b] == s[kb]);
                }
                if a != i && b != i {
                    assert(key_lt(s[ka].key(), s[kb].key()));
                }
            }
        }
        PushOutcome::Inserted
    }

    /// Offers the frames to the queue, first to last, and returns those that
    /// came back.
    pub fn extend(&mut self, frames: Vec<TimedVideoFrame>) -> (refused: Vec<TimedVideoFrame>)
        requires
            old(self).wf(),
        ensures
            final(self).wf(),
            final(self).spec_capacity() == old(self).spec_capacity(),
            final(self)@ == pushed_all(old(self)@, frames@, old(self).spec_capacity()),
            refused@ == refused_all(old(self)@, frames@, old(self).spec_capacity()),
    {
        let mut refused: Vec<TimedVideoFrame> = Vec::new();
        let ghost all: Seq<TimedVideoFrame> = frames@;
        let ghost start: Seq<TimedVideoFrame> = self@;
        let ghost capacity: int = self.spec_capacity();
        for frame in it: frames
            invariant
                it.seq() == all,
                self.wf(),
                self.spec_capacity() == capacity,
                self@ == pushed_all(start, all.take(it.index() as int), capacity),
                refused@ == refused_all(start, all.take(it.index() as int), capacity),
        {
            proof {
                let i = it.index() as int;
                assert(all.take(i + 1).drop_last() == all.take(i));
                assert(all.take(i + 1).last() == all[i]);
            }
            match self.push(frame) {
                PushOutcome::Inserted => {},
                PushOutcome::Duplicate(back) => {
                    refused.push(back);
                },
                PushOutcome::Full(back) => {
                    refused.push(back);
                },
            }
        }
        proof {
            assert(all.take(all.len() as int) == all);
        }
        refused
    }

    /// Empties the queue and returns what it held, in delivery order.
    pub fn clear(&mut self) -> (removed: Vec<TimedVideoFrame>)
        ensures
            final(self)@.len() == 0,
            final(self).wf(),
            final(self).spec_capacity() == old(self).spec_capacity(),
            removed@ == old(self)@,
    {
        let mut removed: Vec<TimedVideoFrame> = Vec::new();
        std::mem::swap(&mut removed, &mut self.frames);
        removed
    }
}

/// A frame decoded after fewer rewinds is delivered first, whatever the two
/// timestamps are.
pub proof fn lemma_generation_dominates(a: TimedVideoFrame, b: TimedVideoFrame)
    requires
        a.rewind_count < b.rewind_count,
    ensures
        key_lt(a.key(), b.key()),
        !key_lt(b.key(), a.key()),
{
}

/// The order of keys is a strict total order.
pub proof fn lemma_key_order(a: FrameKey, b: FrameKey, c: FrameKey)
    ensures
        !key_lt(a, a),
        key_lt(a, b) ==> !key_lt(b, a),
        key_lt(a, b) && key_lt(b, c) ==> key_lt(a, c),
        key_lt(a, b) || a == b || key_lt(b, a),
{
}

/// In an ordered queue the rank of a key parts the frames that come before
/// the key from the others.
pub proof fn lemma_rank_splits(s: Seq<TimedVideoFrame>, key: FrameKey)
    requires
        strictly_ordered(s),
    ensures
        0 <= rank(s, key) <= s.len(),
        forall|j: int| 0 <= j < rank(s, key) ==> key_lt(#[trigger] s[j].key(), key),
        forall|j: int| rank(s, key) <= j < s.len() ==> !key_lt(#[trigger] s[j].key(), key),
    decreases s.len(),
{
    if s.len() > 0 {
        let t = s.drop_last();
        assert forall|i: int, j: int| 0 <= i < j < t.len() implies key_lt(
            #[trigger] t[i].key(),
            #[trigger] t[j].key(),
        ) by {
            assert(t[i] == s[i] && t[j] == s[j]);
        }
        lemma_rank_splits(t, key);
        let r = rank(t, key);
        assert forall|j: int| 0 <= j < rank(s, key) implies key_lt(#[trigger] s[j].key(), key) by {
            if j < t.len() {
                assert(t[j] == s[j]);
                if j >= r {
                    // then the last frame comes before the key, and so does s[j]
                    assert(key_lt(s[j].key(), s[s.len() - 1].key()));
                }
            }
        }
        assert forall|j: int| rank(s, key) <= j < s.len() implies !key_lt(
            #[trigger] s[j].key(),
            key,
        ) by {
            if j < t.len() {
                assert(t[j] == s[j]);
            }
            if key_lt(s.last().key(), key) {
                if r < t.len() {
                    assert(t[r] == s[r]);
                    assert(key_lt(s[r].key(), s[s.len() - 1].key()));
                }
            }
        }
    }
}

/// Offering a frame keeps the queue ordered and within capacity, and changes
/// nothing but the offered frame's presence.
pub proof fn lemma_pushed_wf(s: Seq<TimedVideoFrame>, frame: TimedVideoFrame, capacity: int)
    requires
        strictly_ordered(s),
    ensures
        strictly_ordered(pushed(s, frame, capacity)),
        s.len() <= capacity ==> pushed(s, frame, capacity).len() <= capacity,
        forall|i: int|
            0 <= i < pushed(s, frame, capacity).len() ==> (#[trigger] pushed(
                s,
                frame,
                capacity,
            )[i]) == frame || has_frame(s, pushed(s, frame, capacity)[i]),
{
    let t = pushed(s, frame, capacity);
    if !(has_key(s, frame.key()) || s.len() >= capacity) {
        lemma_rank_splits(s, frame.key());
        let r = rank(s, frame.key());
        assert forall|a: int, b: int| 0 <= a < b < t.len() implies key_lt(
            #[trigger] t[a].key(),
            #[trigger] t[b].key(),
        ) by {
            let ka = if a < r { a } else { a - 1 };
            let kb = if b < r { b } else { b - 1 };
            if a != r {
                assert(t[a] == s[ka]);
            }
            if b != r {
                assert(t[b] == s[kb]);
                if a == r {
                    assert(!key_lt(s[kb].key(), frame.key()));
                    assert(s[kb].key() != frame.key());
                }
            }
            if a != r && b != r {
                assert(key_lt(s[ka].key(), s[kb].key()));
            }
        }
        assert forall|i: int| 0 <= i < t.len() implies (#[trigger] t[i]) == frame || has_frame(
            s,
            t[i],
        ) by {
            if i != r {
                let k = if i < r { i } else { i - 1 };
                assert(t[i] == s[k]);
            }
        }
    } else {
        assert forall|i: int| 0 <= i < t.len() implies (#[trigger] t[i]) == frame || has_frame(
            s,
            t[i],
        ) by {
            assert(t[i] == s[i]);
        }
    }
}

/// Whether `frame` is one of the frames of `s`.
pub open spec fn has_frame(s: Seq<TimedVideoFrame>, frame: TimedVideoFrame) -> bool {
    exists|i: int| 0 <= i < s.len() && #[trigger] s[i] == frame
}

/// What the two sides do with the queue: the producer offers a frame, the
/// consumer asks for the next one.
pub enum QueueOp {
    Push(TimedVideoFrame),
    Pop,
}

/// The queue after one operation.
pub open spec fn queue_step(s: Seq<TimedVideoFrame>, op: QueueOp, capacity: int) -> Seq<
    TimedVideoFrame,
> {
    match op {
        QueueOp::Push(frame) => pushed(s, frame, capacity),
        QueueOp::Pop => if s.len() == 0 {
            s
        } else {
            s.drop_first()
        },
    }
}

/// The queue after the operations of `ops`, first to last.
pub open spec fn queue_run(s: Seq<TimedVideoFrame>, ops: Seq<QueueOp>, capacity: int) -> Seq<
    TimedVideoFrame,
>
    decreases ops.len(),
{
    if ops.len() == 0 {
        s
    } else {
        queue_run(queue_step(s, ops[0], capacity), ops.drop_first(), capacity)
    }
}

/// The frames that the operations of `ops` deliver, in the order in which
/// they are delivered.
pub open spec fn delivered(s: Seq<TimedVideoFrame>, ops: Seq<QueueOp>, capacity: int) -> Seq<
    TimedVideoFrame,
>
    decreases ops.len(),
{
    if ops.len() == 0 {
        Seq::empty()
    } else {
        let rest = delivered(queue_step(s, ops[0], capacity), ops.drop_first(), capacity);
        if ops[0] is Pop && s.len() > 0 {
            seq![s[0]] + rest
        } else {
            rest
        }
    }
}

/// No frame is offered late: once a frame has been delivered, every frame
/// offered afterwards comes at or after the one delivered last. `low` is the
/// key delivered last before `ops`, if any.
pub open spec fn timely(
    s: Seq<TimedVideoFrame>,
    ops: Seq<QueueOp>,
    capacity: int,
    low: Option<FrameKey>,
) -> bool
    decreases ops.len(),
{
    ops.len() > 0 ==> {
        let next = queue_step(s, ops[0], capacity);
        match ops[0] {
            QueueOp::Push(frame) => {
                &&& low matches Some(k) ==> key_le(k, frame.key())
                &&& timely(next, ops.drop_first(), capacity, low)
            },
            QueueOp::Pop => timely(
                next,
                ops.drop_first(),
                capacity,
                if s.len() > 0 {
                    Some(s[0].key())
                } else {
                    low
                },
            ),
        }
    }
}

/// No frame comes before one that stands earlier in `frames`.
pub open spec fn non_decreasing(frames: Seq<TimedVideoFrame>) -> bool {
    forall|i: int, j: int|
        0 <= i < j < frames.len() ==> key_le(#[trigger] frames[i].key(), #[trigger] frames[j].key())
}

proof fn lemma_delivery_from(
    s: Seq<TimedVideoFrame>,
    ops: Seq<QueueOp>,
    capacity: int,
    low: Option<FrameKey>,
)
    requires
        strictly_ordered(s),
        timely(s, ops, capacity, low),
        low matches Some(k) ==> forall|i: int| 0 <= i < s.len() ==> key_le(k, #[trigger] s[i].key()),
    ensures
        non_decreasing(delivered(s, ops, capacity)),
        low matches Some(k) ==> forall|i: int|
            0 <= i < delivered(s, ops, capacity).len() ==> key_le(
                k,
                #[trigger] delivered(s, ops, capacity)[i].key(),
            ),
    decreases ops.len(),
{
    if ops.len() > 0 {
        let next = queue_step(s, ops[0], capacity);
        let rest_ops = ops.drop_first();
        match ops[0] {
            QueueOp::Push(frame) => {
                lemma_pushed_wf(s, frame, capacity);
                if let Some(k) = low {
                    assert forall|i: int| 0 <= i < next.len() implies key_le(
                        k,
                        #[trigger] next[i].key(),
                    ) by {
                        if next[i] != frame {
                            let j = choose|j: int| 0 <= j < s.len() && #[trigger] s[j] == next[i];
                            assert(key_le(k, s[j].key()));
                        }
                    }
                }
                lemma_delivery_from(next, rest_ops, capacity, low);
            },
            QueueOp::Pop => {
                if s.len() > 0 {
                    let first = s[0];
                    assert forall|i: int, j: int| 0 <= i < j < next.len() implies key_lt(
                        #[trigger] next[i].key(),
                        #[trigger] next[j].key(),
                    ) by {
                        assert(next[i] == s[i + 1] && next[j] == s[j + 1]);
                    }
                    assert forall|i: int| 0 <= i < next.len() implies key_le(
                        first.key(),
                        #[trigger] next[i].key(),
                    ) by {
                        assert(next[i] == s[i + 1]);
                        assert(key_lt(s[0].key(), s[i + 1].key()));
                    }
                    lemma_delivery_from(next, rest_ops, capacity, Some(first.key()));
                    let rest = delivered(next, rest_ops, capacity);
                    let all = delivered(s, ops, capacity);
                    assert(all == seq![first] + rest);
                    assert forall|i: int, j: int| 0 <= i < j < all.len() implies key_le(
                        #[trigger] all[i].key(),
                        #[trigger] all[j].key(),
                    ) by {
                        assert(all[j] == rest[j - 1]);
                        if i > 0 {
                            assert(all[i] == rest[i - 1]);
                        }
                    }
                    if let Some(k) = low {
                        assert(key_le(k, s[0].key()));
                        assert forall|i: int| 0 <= i < all.len() implies key_le(
                            k,
                            #[trigger] all[i].key(),
                        ) by {
                            if i > 0 {
                                assert(all[i] == rest[i - 1]);
                                assert(key_le(first.key(), rest[i - 1].key()));
                            }
                        }
                    }
                } else {
                    lemma_delivery_from(next, rest_ops, capacity, low);
                }
            },
        }
    }
}

/// Frames are delivered in order: however offers and deliveries alternate,
/// as long as no frame is offered late, no delivered frame comes before one
/// delivered earlier.
pub proof fn lemma_delivery_in_order(s: Seq<TimedVideoFrame>, ops: Seq<QueueOp>, capacity: int)
    requires
        strictly_ordered(s),
        timely(s, ops, capacity, None),
    ensures
        non_decreasing(delivered(s, ops, capacity)),
{
    lemma_delivery_from(s, ops, capacity, None);
}

/// The queue never outgrows its capacity and never holds two frames with one
/// key, whatever is offered to it and whenever frames are taken from it.
pub proof fn lemma_queue_stays_bounded(s: Seq<TimedVideoFrame>, ops: Seq<QueueOp>, capacity: int)
    requires
        strictly_ordered(s),
        s.len() <= capacity,
    ensures
        strictly_ordered(queue_run(s, ops, capacity)),
        queue_run(s, ops, capacity).len() <= capacity,
    decreases ops.len(),
{
    if ops.len() > 0 {
        let next = queue_step(s, ops[0], capacity);
        match ops[0] {
            QueueOp::Push(frame) => {
                lemma_pushed_wf(s, frame, capacity);
            },
            QueueOp::Pop => {
                if s.len() > 0 {
                    assert forall|i: int, j: int| 0 <= i < j < next.len() implies key_lt(
                        #[trigger] next[i].key(),
                        #[trigger] next[j].key(),
                    ) by {
                        assert(next[i] == s[i + 1] && next[j] == s[j + 1]);
                    }
                }
            },
        }
        lemma_queue_stays_bounded(next, ops.drop_first(), capacity);
    }
}

/// A full queue turns every offer down and stays as it is.
pub proof fn lemma_full_queue_refuses(s: Seq<TimedVideoFrame>, frame: TimedVideoFrame, capacity: int)
    requires
        s.len() >= capacity,
    ensures
        pushed(s, frame, capacity) == s,
        !(push_outcome(s, frame, capacity) is Inserted),
{
}

/// How many frames of `s` have the key `key`.
pub open spec fn count_key(s: Seq<TimedVideoFrame>, key: FrameKey) -> nat
    decreases s.len(),
{
    if s.len() == 0 {
        0
    } else {
        count_key(s.drop_last(), key) + if s.last().key() == key {
            1nat
        } else {
            0nat
        }
    }
}

/// An ordered queue holds a key once or not at all.
pub proof fn lemma_key_held_once(s: Seq<TimedVideoFrame>, key: FrameKey)
    requires
        strictly_ordered(s),
    ensures
        count_key(s, key) == if has_key(s, key) {
            1nat
        } else {
            0nat
        },
    decreases s.len(),
{
    if s.len() > 0 {
        let t = s.drop_last();
        assert forall|i: int, j: int| 0 <= i < j < t.len() implies key_lt(
            #[trigger] t[i].key(),
            #[trigger] t[j].key(),
        ) by {
            assert(t[i] == s[i] && t[j] == s[j]);
        }
        lemma_key_held_once(t, key);
        if has_key(t, key) {
            let i = choose|i: int| 0 <= i < t.len() && #[trigger] t[i].key() == key;
            assert(t[i] == s[i]);
            assert(key_lt(s[i].key(), s[s.len() - 1].key()));
            assert(s[i].key() == key);
        } else if s.last().key() == key {
            assert(s[s.len() - 1].key() == key);
        } else if has_key(s, key) {
            let i = choose|i: int| 0 <= i < s.len() && #[trigger] s[i].key() == key;
            assert(t[i] == s[i]);
        }
    }
}

/// Two frames with one key make one entry: the second offer changes nothing,
/// and where the first found room the queue holds that key exactly once.
pub proof fn lemma_no_duplicates(
    s: Seq<TimedVideoFrame>,
    first: TimedVideoFrame,
    second: TimedVideoFrame,
    capacity: int,
)
    requires
        strictly_ordered(s),
        first.key() == second.key(),
    ensures
        pushed(pushed(s, first, capacity), second, capacity) == pushed(s, first, capacity),
        has_key(s, first.key()) || s.len() < capacity ==> count_key(
            pushed(pushed(s, first, capacity), second, capacity),
            first.key(),
        ) == 1,
        push_outcome(s, first, capacity) is Inserted ==> push_outcome(
            pushed(s, first, capacity),
            second,
            capacity,
        ) == PushOutcome::Duplicate(second),
{
    let once = pushed(s, first, capacity);
    lemma_pushed_wf(s, first, capacity);
    if !has_key(s, first.key()) && s.len() < capacity {
        lemma_rank_splits(s, first.key());
        let r = rank(s, first.key());
        assert(once[r] == first);
        assert(once[r].key() == second.key());
        assert(has_key(once, second.key()));
    }
    lemma_key_held_once(once, first.key());
}

} // verus!
