use std::collections::VecDeque;
use vstd::prelude::*;

verus! {

/// How many frames a stream buffers before newer frames are dropped.
pub const STREAM_CAPACITY: usize = 2;

/// Samples in one depth frame (640 by 480 pixels, one 16-bit sample each).
pub const DEPTH_FRAME_LEN: usize = 307200;

/// Bytes in one video frame (640 by 480 pixels, three bytes each).
pub const VIDEO_FRAME_LEN: usize = 921600;

/// One frame of a stream: an owned copy of the driver's buffer and the
/// driver's timestamp, an ordering token that is not wall-clock calibrated.
pub struct Frame<T> {
    pub data: Vec<T>,
    pub timestamp: u32,
}

pub type DepthFrame = Frame<u16>;

pub type VideoFrame = Frame<u8>;

/// What offering `f` to a buffer holding `q` leaves in it: the frame is
/// appended when there is room, and dropped when the buffer is full.
pub open spec fn offer_spec<T>(q: Seq<Frame<T>>, f: Frame<T>) -> Seq<Frame<T>> {
    if q.len() < STREAM_CAPACITY {
        q.push(f)
    } else {
        q
    }
}

/// What taking from a buffer holding `q` returns, and what it leaves: the
/// oldest frame, if any.
pub open spec fn take_spec<T>(q: Seq<Frame<T>>) -> (Option<Frame<T>>, Seq<Frame<T>>) {
    if q.len() == 0 {
        (None, q)
    } else {
        (Some(q[0]), q.drop_first())
    }
}

/// The bounded first-in first-out buffer between the producer (the driver
/// thread's callback) and the consumer of a stream. The producer never waits:
/// a frame that finds the buffer full is dropped, so the consumer sees the
/// freshest frames the buffer could keep, in the order they were produced.
pub struct FrameQueue<T> {
    frames: VecDeque<Frame<T>>,
}

impl<T> FrameQueue<T> {
    /// The buffered frames, oldest first.
    pub closed spec fn view(&self) -> Seq<Frame<T>> {
        self.frames@
    }

    /// The buffer holds no more than its capacity.
    pub open spec fn wf(&self) -> bool {
        self@.len() <= STREAM_CAPACITY
    }

    pub fn new() -> (q: FrameQueue<T>)
        ensures
            q@ == Seq::<Frame<T>>::empty(),
            q.wf(),
    {
        FrameQueue { frames: VecDeque::new() }
    }

    pub fn len(&self) -> (n: usize)
        ensures
            n == self@.len(),
    {
        self.frames.len()
    }

    /// Offers a frame without waiting; returns whether it was kept.
    pub fn offer(&mut self, frame: Frame<T>) -> (kept: bool)
        requires
            old(self).wf(),
        ensures
            kept == (old(self)@.len() < STREAM_CAPACITY),
            final(self)@ == offer_spec(old(self)@, frame),
            final(self).wf(),
    {
        if self.frames.len() < STREAM_CAPACITY {
            self.frames.push_back(frame);
            true
        } else {
            false
        }
    }

    /// Takes the oldest buffered frame, if any, without waiting.
    pub fn take(&mut self) -> (f: Option<Frame<T>>)
        requires
            old(self).wf(),
        ensures
            (f, final(self)@) == take_spec(old(self)@),
            final(self).wf(),
    {
        let f = self.frames.pop_front();
        proof {
            if old(self)@.len() > 0 {
                assert(final(self)@ =~= old(self)@.drop_first());
            }
        }
        f
    }
}

/// An event on one stream: the driver delivers a frame, or the consumer
/// receives.
pub enum StreamEvent<T> {
    Deliver(Frame<T>),
    Receive,
}

/// The buffer and the frames the consumer obtained after the events `ev`,
/// starting from the buffer `q`.
pub open spec fn replay<T>(q: Seq<Frame<T>>, ev: Seq<StreamEvent<T>>) -> (Seq<Frame<T>>, Seq<Frame<T>>)
    decreases ev.len(),
{
    if ev.len() == 0 {
        (q, Seq::empty())
    } else {
        let (q0, seen) = replay(q, ev.drop_last());
        match ev.last() {
            StreamEvent::Deliver(f) => (offer_spec(q0, f), seen),
            StreamEvent::Receive => match take_spec(q0).0 {
                Some(f) => (take_spec(q0).1, seen.push(f)),
                None => (q0, seen),
            },
        }
    }
}

/// The timestamps of a sequence of frames.
pub open spec fn timestamps<T>(s: Seq<Frame<T>>) -> Seq<u32> {
    s.map_values(|f: Frame<T>| f.timestamp)
}

pub open spec fn strictly_increasing(s: Seq<u32>) -> bool {
    forall|i: int, j: int| 0 <= i < j < s.len() ==> s[i] < s[j]
}

/// The frames delivered by `ev`, in order.
pub open spec fn delivered<T>(ev: Seq<StreamEvent<T>>) -> Seq<Frame<T>>
    decreases ev.len(),
{
    if ev.len() == 0 {
        Seq::empty()
    } else {
        match ev.last() {
            StreamEvent::Deliver(f) => delivered(ev.drop_last()).push(f),
            StreamEvent::Receive => delivered(ev.drop_last()),
        }
    }
}

/// The frames seen so far followed by those still buffered.
spec fn seen_then_buffered<T>(ev: Seq<StreamEvent<T>>) -> Seq<Frame<T>> {
    replay(Seq::empty(), ev).1 + replay(Seq::empty(), ev).0
}

proof fn lemma_replay_order<T>(ev: Seq<StreamEvent<T>>)
    requires
        strictly_increasing(timestamps(delivered(ev))),
    ensures
        strictly_increasing(timestamps(seen_then_buffered(ev))),
        delivered(ev).len() == 0 ==> seen_then_buffered(ev).len() == 0,
        delivered(ev).len() > 0 ==> forall|k: int|
            0 <= k < seen_then_buffered(ev).len() ==> #[trigger] seen_then_buffered(ev)[k].timestamp
                <= delivered(ev).last().timestamp,
    decreases ev.len(),
{
    if ev.len() > 0 {
        let pre = ev.drop_last();
        let d0 = delivered(pre);
        let d1 = delivered(ev);
        assert forall|i: int, j: int|
            0 <= i < j < timestamps(d0).len() implies timestamps(d0)[i] < timestamps(d0)[j] by {
            assert(d0[i] == d1[i]);
            assert(d0[j] == d1[j]);
            assert(timestamps(d1)[i] < timestamps(d1)[j]);
        }
        lemma_replay_order(pre);
        let (q0, seen) = replay(Seq::<Frame<T>>::empty(), pre);
        let all0 = seen + q0;
        assert(all0 == seen_then_buffered(pre));
        match ev.last() {
            StreamEvent::Deliver(f) => {
                let n = d0.len() as int;
                assert(d1 == d0.push(f));
                assert(d1.last() == f);
                assert forall|k: int| 0 <= k < all0.len() implies all0[k].timestamp
                    < f.timestamp by {
                    assert(d0.last() == d1[n - 1]);
                    assert(timestamps(d1)[n - 1] < timestamps(d1)[n]);
                }
                if q0.len() < STREAM_CAPACITY {
                    let all1 = seen + q0.push(f);
                    assert(all1 =~= all0.push(f));
                    assert(all1 == seen_then_buffered(ev));
                    assert forall|i: int, j: int|
                        0 <= i < j < timestamps(all1).len() implies timestamps(all1)[i]
                        < timestamps(all1)[j] by {
                        if j < all0.len() {
                            assert(timestamps(all0)[i] < timestamps(all0)[j]);
                        }
                    }
                    assert forall|k: int| 0 <= k < all1.len() implies #[trigger] all1[k].timestamp
                        <= f.timestamp by {
                        if k < all0.len() {
                            assert(all1[k] == all0[k]);
                        }
                    }
                } else {
                    assert(all0 == seen_then_buffered(ev));
                }
            },
            StreamEvent::Receive => {
                assert(d1 == d0);
                if q0.len() > 0 {
                    let all1 = seen.push(q0[0]) + q0.drop_first();
                    assert(all1 =~= all0);
                }
            },
        }
    }
}

/// Frames reach the consumer in the order the driver produced them: when the
/// driver delivers frames with strictly increasing timestamps, the frames the
/// consumer receives have strictly increasing timestamps too, so none is seen
/// twice, whether or not the consumer falls behind.
pub proof fn lemma_delivery_order<T>(ev: Seq<StreamEvent<T>>)
    requires
        strictly_increasing(timestamps(delivered(ev))),
    ensures
        strictly_increasing(timestamps(replay(Seq::empty(), ev).1)),
{
    lemma_replay_order(ev);
    let (q, seen) = replay(Seq::<Frame<T>>::empty(), ev);
    assert(seen + q == seen_then_buffered(ev));
    assert forall|i: int, j: int|
        0 <= i < j < timestamps(seen).len() implies timestamps(seen)[i] < timestamps(seen)[j] by {
        assert((seen + q)[i] == seen[i]);
        assert((seen + q)[j] == seen[j]);
        assert(timestamps(seen + q)[i] < timestamps(seen + q)[j]);
    }
}

/// The producer is never held up and the buffer never holds more than its
/// capacity: whatever the events, a buffer within capacity stays within it.
pub proof fn lemma_buffer_bounded<T>(q: Seq<Frame<T>>, ev: Seq<StreamEvent<T>>)
    requires
        q.len() <= STREAM_CAPACITY,
    ensures
        replay(q, ev).0.len() <= STREAM_CAPACITY,
    decreases ev.len(),
{
    if ev.len() > 0 {
        lemma_buffer_bounded(q, ev.drop_last());
    }
}

/// When the driver delivers faster than the consumer receives, the frames
/// that arrive once the buffer is full are dropped: delivering `fs` into an
/// empty buffer keeps exactly the first frames that fit.
pub proof fn lemma_full_buffer_drops<T>(fs: Seq<Frame<T>>)
    ensures
        replay(Seq::empty(), fs.map_values(|f: Frame<T>| StreamEvent::Deliver(f))).0 == fs.take(
            if fs.len() < STREAM_CAPACITY {
                fs.len() as int
            } else {
                STREAM_CAPACITY as int
            },
        ),
    decreases fs.len(),
{
    let ev = fs.map_values(|f: Frame<T>| StreamEvent::Deliver(f));
    if fs.len() > 0 {
        let pre = fs.drop_last();
        assert(ev.drop_last() =~= pre.map_values(|f: Frame<T>| StreamEvent::Deliver(f)));
        lemma_full_buffer_drops(pre);
        let q0 = replay(Seq::<Frame<T>>::empty(), ev.drop_last()).0;
        assert(ev.last() == StreamEvent::Deliver(fs.last()));
        if pre.len() < STREAM_CAPACITY {
            assert(q0.push(fs.last()) =~= fs.take(fs.len() as int));
        } else {
            assert(q0 =~= fs.take(STREAM_CAPACITY as int));
        }
    } else {
        assert(fs.take(0) =~= Seq::<Frame<T>>::empty());
    }
}

/// The events of a consumer that keeps up: each frame of `fs` is delivered
/// and then received, before the next one is delivered.
pub open spec fn kept_up<T>(fs: Seq<Frame<T>>) -> Seq<StreamEvent<T>>
    decreases fs.len(),
{
    if fs.len() == 0 {
        Seq::empty()
    } else {
        kept_up(fs.drop_last()) + seq![StreamEvent::Deliver(fs.last()), StreamEvent::Receive]
    }
}

/// A consumer that keeps up receives every frame the driver delivers, in
/// order, and leaves nothing buffered.
pub proof fn lemma_keeping_up_sees_all<T>(fs: Seq<Frame<T>>)
    ensures
        replay(Seq::empty(), kept_up(fs)) == (Seq::<Frame<T>>::empty(), fs),
    decreases fs.len(),
{
    if fs.len() == 0 {
        assert(kept_up(fs) =~= Seq::<StreamEvent<T>>::empty());
    } else {
        let pre = fs.drop_last();
        let f = fs.last();
        lemma_keeping_up_sees_all(pre);
        let ev0 = kept_up(pre);
        let ev = kept_up(fs);
        let ev1 = ev0.push(StreamEvent::Deliver(f));
        assert(ev == ev0 + seq![StreamEvent::Deliver(f), StreamEvent::Receive]);
        assert(ev.drop_last() =~= ev1);
        assert(ev.last() == StreamEvent::<T>::Receive);
        assert(ev1.drop_last() =~= ev0);
        assert(ev1.last() == StreamEvent::Deliver(f));
        let q1 = offer_spec(Seq::<Frame<T>>::empty(), f);
        assert(replay(Seq::empty(), ev1) == (q1, pre));
        assert(q1 =~= seq![f]);
        assert(take_spec(q1).1 =~= Seq::<Frame<T>>::empty());
        assert(pre.push(f) =~= fs);
    }
}

} // verus!
