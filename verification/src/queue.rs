//! The sample queue: a bounded FIFO connecting the capture thread to the
//! publisher thread.  Push never blocks: on a full queue it fails and a
//! drop counter grows, which keeps the capture side real-time-safe.
//!
//! Storage is crossbeam's lock-free `ArrayQueue`.  Verus cannot look inside
//! it, so its contents and capacity are named by `raw_frames` and
//! `raw_capacity`, and the trusted wrappers below state what the crate's
//! source shows of `new`, `push`, `pop` and `len` over those names.

use vstd::prelude::*;

use crate::frame::AudioFrame;

verus! {

/// Holds crossbeam's `ArrayQueue`, opaque to Verus because of its interior
/// mutability; the wrappers below are its whole verified interface.
#[verifier::external_body]
pub struct RawQueue {
    inner: crossbeam::queue::ArrayQueue<AudioFrame>,
}

/// The frames the raw queue holds, oldest first.
pub uninterp spec fn raw_frames(q: RawQueue) -> Seq<AudioFrame>;

/// The fixed capacity the raw queue was created with.
pub uninterp spec fn raw_capacity(q: RawQueue) -> nat;

/// Relies on crossbeam's `ArrayQueue::new`: an empty queue of the given
/// fixed capacity.  `new` panics on capacity zero and on capacities near
/// the address-space limit; `requires` keeps both out.
#[verifier::external_body]
fn raw_new(capacity: usize) -> (q: RawQueue)
    requires
        1 <= capacity <= 0x1000_0000,
    ensures
        raw_frames(q) == Seq::<AudioFrame>::empty(),
        raw_capacity(q) == capacity,
{
    RawQueue { inner: crossbeam::queue::ArrayQueue::new(capacity) }
}

/// Relies on crossbeam's `ArrayQueue::push`: appends at the tail, and
/// fails returning the value exactly when the queue is full.
#[verifier::external_body]
fn raw_push(q: &mut RawQueue, frame: AudioFrame) -> (ok: bool)
    ensures
        raw_capacity(*final(q)) == raw_capacity(*old(q)),
        ok == (raw_frames(*old(q)).len() < raw_capacity(*old(q))),
        ok ==> raw_frames(*final(q)) == raw_frames(*old(q)).push(frame),
        !ok ==> raw_frames(*final(q)) == raw_frames(*old(q)),
{
    q.inner.push(frame).is_ok()
}

/// Relies on crossbeam's `ArrayQueue::pop`: removes and returns the head,
/// or returns nothing exactly when the queue is empty.
#[verifier::external_body]
fn raw_pop(q: &mut RawQueue) -> (r: Option<AudioFrame>)
    ensures
        raw_capacity(*final(q)) == raw_capacity(*old(q)),
        (r is Some) == (raw_frames(*old(q)).len() > 0),
        (r matches Some(f) ==> f == raw_frames(*old(q))[0] && raw_frames(*final(q)) == raw_frames(
            *old(q),
        ).drop_first()),
        r is None ==> raw_frames(*final(q)) == raw_frames(*old(q)),
{
    q.inner.pop()
}

/// Relies on crossbeam's `ArrayQueue::len`: the number of stored elements.
#[verifier::external_body]
fn raw_len(q: &RawQueue) -> (n: usize)
    ensures
        n == raw_frames(*q).len(),
{
    q.inner.len()
}

/// The bounded sample queue, with its monotonically growing drop counter.
pub struct SampleQueue {
    raw: RawQueue,
    dropped: u64,
}

impl SampleQueue {
    /// The queued frames, oldest first.
    pub closed spec fn frames(self) -> Seq<AudioFrame> {
        raw_frames(self.raw)
    }

    /// The fixed capacity.
    pub closed spec fn cap(self) -> nat {
        raw_capacity(self.raw)
    }

    /// How many pushes the full queue has rejected so far.
    pub closed spec fn dropped_spec(self) -> u64 {
        self.dropped
    }

    /// An empty queue of the given capacity.
    pub fn new(capacity: usize) -> (q: SampleQueue)
        requires
            1 <= capacity <= 0x1000_0000,
        ensures
            q.frames() == Seq::<AudioFrame>::empty(),
            q.cap() == capacity,
            q.dropped_spec() == 0,
    {
        SampleQueue { raw: raw_new(capacity), dropped: 0 }
    }

    /// Non-blocking push.  Succeeds, appending at the tail, exactly when
    /// the queue is below capacity; on a full queue it fails, leaves the
    /// queue unmodified, and grows the drop counter by exactly one
    /// (saturating at its type's maximum).
    pub fn push(&mut self, frame: AudioFrame) -> (ok: bool)
        ensures
            final(self).cap() == old(self).cap(),
            ok == (old(self).frames().len() < old(self).cap()),
            ok ==> final(self).frames() == old(self).frames().push(frame) && final(self).dropped_spec() == old(self).dropped_spec(),
            !ok ==> final(self).frames() == old(self).frames() && final(self).dropped_spec() == (
            if old(self).dropped_spec() < u64::MAX {
                (old(self).dropped_spec() + 1) as u64
            } else {
                u64::MAX
            }),
    {
        let ok = raw_push(&mut self.raw, frame);
        if !ok {
            if self.dropped < u64::MAX {
                self.dropped = self.dropped + 1;
            }
        }
        ok
    }

    /// Non-blocking pop: removes and returns the oldest frame, or returns
    /// nothing exactly when the queue is empty.  The consumer's bounded
    /// wait is built on top of this by polling.
    pub fn try_pop(&mut self) -> (r: Option<AudioFrame>)
        ensures
            final(self).cap() == old(self).cap(),
            final(self).dropped_spec() == old(self).dropped_spec(),
            (r is Some) == (old(self).frames().len() > 0),
            (r matches Some(f) ==> f == old(self).frames()[0] && final(self).frames() == old(self).frames().drop_first()),
            r is None ==> final(self).frames() == old(self).frames(),
    {
        raw_pop(&mut self.raw)
    }

    /// The number of frames currently queued.
    pub fn len(&self) -> (n: usize)
        ensures
            n == self.frames().len(),
    {
        raw_len(&self.raw)
    }

    /// The drop counter, for observability of degraded operation.
    pub fn dropped_count(&self) -> (n: u64)
        ensures
            n == self.dropped_spec(),
    {
        self.dropped
    }
}

} // verus!
