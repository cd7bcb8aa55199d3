use vstd::prelude::*;

use crate::transcoder::reorder::{frames_ascending, insert_frame, run_len, strictly_after, ReorderBuffer};

verus! {

/// The decisions of the writer of a pipeline: transcoded frames arrive from the workers in
/// any order and are written in frame order; writing ends when every frame is written, or
/// when every worker has stopped.
pub struct OrderedWriter<T> {
    reorder: ReorderBuffer<T>,
    num_frames: u32,
    num_workers: u32,
    stopped: u32,
}

impl<T> OrderedWriter<T> {
    /// The frames waiting for an earlier one, in frame order, with their frame numbers below
    /// the largest `u32`.
    pub closed spec fn wf(&self) -> bool {
        &&& frames_ascending(self.reorder.held())
        &&& forall|i: int|
            0 <= i < self.reorder.held().len() ==> (#[trigger] self.reorder.held()[i]).0 < u32::MAX
    }

    /// How many frames have been written: frames `0 .. written()`.
    pub closed spec fn written(&self) -> u32 {
        self.reorder.next_frame()
    }

    /// The frames that arrived before an earlier one and wait, in frame order.
    pub closed spec fn waiting(&self) -> Seq<(u32, T)> {
        self.reorder.held()
    }

    /// How many frames the video has.
    pub closed spec fn total(&self) -> u32 {
        self.num_frames
    }

    /// Whether no frame that is due waits: the waiting frames rise strictly and all come
    /// after the next frame to write.
    pub open spec fn orderly(&self) -> bool {
        strictly_after(self.waiting(), self.written() as int)
    }

    /// How many workers feed the writer.
    pub closed spec fn workers(&self) -> u32 {
        self.num_workers
    }

    /// How many workers have stopped.
    pub closed spec fn stopped(&self) -> u32 {
        self.stopped
    }

    /// A writer for a video of `num_frames` frames fed by `num_workers` workers.
    pub fn new(num_frames: u32, num_workers: u32) -> (r: Self)
        ensures
            r.wf(),
            r.written() == 0,
            r.waiting() == Seq::<(u32, T)>::empty(),
            r.orderly(),
            r.total() == num_frames,
            r.workers() == num_workers,
            r.stopped() == 0,
    {
        OrderedWriter { reorder: ReorderBuffer::new(), num_frames, num_workers, stopped: 0 }
    }

    /// How many frames have been written.
    pub fn num_written(&self) -> (r: u32)
        ensures
            r == self.written(),
    {
        self.reorder.next()
    }

    /// Transcoded frame `fr` arrives: returns the frames to write now, in frame order (none
    /// unless `fr` is the next to write, else it and the waiting frames that follow it
    /// without a gap), and whether every frame has then been written.
    pub fn on_frame(&mut self, fr: u32, item: T) -> (r: (Vec<(u32, T)>, bool))
        requires
            old(self).wf(),
            fr < u32::MAX,
        ensures
            final(self).wf(),
            final(self).total() == old(self).total(),
            final(self).workers() == old(self).workers(),
            final(self).stopped() == old(self).stopped(),
            fr != old(self).written() ==> r.0@.len() == 0 && final(self).written() == old(self).written(),
            fr == old(self).written() ==> r.0@.len() >= 1 && r.0@[0] == (fr, item),
            fr != old(self).written() ==> final(self).waiting() == insert_frame(old(self).waiting(), (fr, item)),
            fr == old(self).written() ==> {
                let k = run_len(old(self).waiting(), fr + 1);
                &&& r.0@ == seq![(fr, item)] + old(self).waiting().subrange(0, k as int)
                &&& final(self).waiting() == old(self).waiting().subrange(
                    k as int,
                    old(self).waiting().len() as int,
                )
            },
            old(self).orderly() && fr >= old(self).written() && (forall|i: int|
                0 <= i < old(self).waiting().len() ==> (#[trigger] old(self).waiting()[i]).0 != fr)
                ==> final(self).orderly(),
            forall|i: int| 0 <= i < r.0@.len() ==> (#[trigger] r.0@[i]).0 == old(self).written() + i,
            final(self).written() == old(self).written() + r.0@.len(),
            (r.0@ + final(self).waiting()).to_multiset() == old(self).waiting().to_multiset().insert(
                (fr, item),
            ),
            r.1 == (final(self).written() == final(self).total()),
    {
        let ghost held = self.reorder.held();
        let ghost next = self.reorder.next_frame();
        let ready = self.reorder.accept(fr, item);
        proof {
            crate::transcoder::reorder::lemma_accept_conserves(held, fr, item, next);
            vstd::seq_lib::lemma_multiset_commutative(ready@, self.reorder.held());
            if fr != next {
                assert(ready@ + self.reorder.held() =~= self.reorder.held());
            }
            if strictly_after(held, next as int) && fr >= next && (forall|i: int|
                0 <= i < held.len() ==> (#[trigger] held[i]).0 != fr) {
                if fr != next {
                    crate::transcoder::reorder::lemma_insert_strictly_after(
                        held,
                        (fr, item),
                        next as int,
                        0x1_0000_0000int,
                    );
                } else {
                    crate::transcoder::reorder::lemma_release_strictly_after(held, fr as int);
                }
            }
        }
        let done = self.reorder.next() == self.num_frames;
        (ready, done)
    }

    /// A worker has stopped: answers whether every worker has.
    pub fn on_worker_stopped(&mut self) -> (all_stopped: bool)
        ensures
            final(self).wf() == old(self).wf(),
            final(self).written() == old(self).written(),
            final(self).waiting() == old(self).waiting(),
            final(self).total() == old(self).total(),
            final(self).workers() == old(self).workers(),
            old(self).stopped() < u32::MAX ==> final(self).stopped() == old(self).stopped() + 1,
            old(self).stopped() == u32::MAX ==> final(self).stopped() == old(self).stopped(),
            all_stopped == (final(self).stopped() >= final(self).workers()),
    {
        if self.stopped < u32::MAX {
            self.stopped = self.stopped + 1;
        }
        self.stopped >= self.num_workers
    }
}

/// What the reader of a pipeline does for its next frame.
#[derive(Debug, PartialEq, Eq)]
pub enum FeedStep {
    /// Every frame has been handed out.
    Done,
    /// Read frame `0` into new buffers.
    Fresh(u32),
    /// Wait for a pair of buffers to come back from the writer, then read frame `0` into them.
    Recycle(u32),
}

/// The decisions of the reader of a pipeline: frames are handed out in order, and no more
/// than `limit` pairs of buffers are ever in flight; past that, buffers are reused.
pub struct FrameFeeder {
    next: u32,
    num_frames: u32,
    outstanding: u32,
    limit: u32,
}

impl FrameFeeder {
    /// The next frame to hand out.
    pub closed spec fn next_frame(&self) -> u32 {
        self.next
    }

    /// How many pairs of buffers are in flight.
    pub closed spec fn in_flight(&self) -> u32 {
        self.outstanding
    }

    /// How many frames the video has.
    pub closed spec fn total(&self) -> u32 {
        self.num_frames
    }

    /// How many pairs of buffers may be in flight.
    pub closed spec fn limit(&self) -> u32 {
        self.limit
    }

    /// A reader for `num_frames` frames with at most `limit` pairs of buffers in flight.
    pub fn new(num_frames: u32, limit: u32) -> (r: Self)
        ensures
            r.next_frame() == 0,
            r.in_flight() == 0,
            r.total() == num_frames,
            r.limit() == limit,
    {
        FrameFeeder { next: 0, num_frames, outstanding: 0, limit }
    }

    /// Decides what to do for the next frame: done once every frame is handed out; new
    /// buffers while fewer than `limit` pairs are in flight; otherwise reuse a pair.
    pub fn step(&mut self) -> (r: FeedStep)
        requires
            old(self).in_flight() <= old(self).limit(),
        ensures
            final(self).in_flight() <= final(self).limit(),
            final(self).total() == old(self).total(),
            final(self).limit() == old(self).limit(),
            old(self).next_frame() >= old(self).total() ==> r == FeedStep::Done && *final(self) == *old(self),
            old(self).next_frame() < old(self).total() && old(self).in_flight() < old(self).limit() ==> {
                &&& r == FeedStep::Fresh(old(self).next_frame())
                &&& final(self).in_flight() == old(self).in_flight() + 1
                &&& final(self).next_frame() == old(self).next_frame() + 1
            },
            old(self).next_frame() < old(self).total() && old(self).in_flight() >= old(self).limit() ==> {
                &&& r == FeedStep::Recycle(old(self).next_frame())
                &&& final(self).in_flight() == old(self).in_flight()
                &&& final(self).next_frame() == old(self).next_frame() + 1
            },
    {
        if self.next >= self.num_frames {
            return FeedStep::Done;
        }
        let fr = self.next;
        self.next = self.next + 1;
        if self.outstanding < self.limit {
            self.outstanding = self.outstanding + 1;
            FeedStep::Fresh(fr)
        } else {
            FeedStep::Recycle(fr)
        }
    }
}

} // verus!
