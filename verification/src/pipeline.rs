//! The touch pipeline: a bounded, lossy FIFO between the touch controller
//! and the runtime.

use crate::counting::saturating_succ_u64;
use crate::display::{clamp_and_validate_touch, spec_clamp_and_validate, DisplayPoint};
use crate::drivers::TouchDriver;
use crate::protocol::{TouchEventPayload, TouchPhase};
use std::collections::VecDeque;
use vstd::prelude::*;

verus! {

/// How many samples the pipeline holds before it drops the oldest.
pub const PIPELINE_CAPACITY: usize = 32;

/// A touch sample that has been mapped onto the canvas.
#[derive(Clone, Copy, Debug, PartialEq, Eq)]
pub struct TouchEventFrame {
    pub point: DisplayPoint,
    pub phase: TouchPhase,
}

/// The frame that a raw sample maps to; none when the sample falls outside
/// the safe circle.
pub open spec fn frame_of(payload: TouchEventPayload) -> Option<TouchEventFrame> {
    match spec_clamp_and_validate(payload.x, payload.y) {
        Some(point) => Some(TouchEventFrame { point, phase: payload.phase }),
        None => None,
    }
}

/// What a [`TouchPipeline`] holds: one slot per sample taken in and not yet
/// taken out, oldest first, and the count of samples dropped. The slot of a
/// rejected sample is empty.
pub struct TouchPipelineModel {
    pub slots: Seq<Option<TouchEventFrame>>,
    pub dropped_count: u64,
}

impl TouchPipelineModel {
    /// The pipeline before any sample.
    pub open spec fn empty() -> TouchPipelineModel {
        TouchPipelineModel { slots: Seq::empty(), dropped_count: 0 }
    }

    /// The bound that every pipeline keeps.
    pub open spec fn wf(self) -> bool {
        self.slots.len() <= PIPELINE_CAPACITY
    }

    /// The pipeline after it took in `payload`: a full pipeline first drops
    /// its oldest slot and counts it.
    pub open spec fn pushed(self, payload: TouchEventPayload) -> TouchPipelineModel {
        if self.slots.len() >= PIPELINE_CAPACITY {
            TouchPipelineModel {
                slots: self.slots.skip(1).push(frame_of(payload)),
                dropped_count: saturating_succ_u64(self.dropped_count),
            }
        } else {
            TouchPipelineModel { slots: self.slots.push(frame_of(payload)), ..self }
        }
    }

    /// The pipeline after it took in each of `batch`, in order.
    pub open spec fn pushed_all(self, batch: Seq<TouchEventPayload>) -> TouchPipelineModel
        decreases batch.len(),
    {
        if batch.len() == 0 {
            self
        } else {
            self.pushed_all(batch.drop_last()).pushed(batch.last())
        }
    }

    /// What the next take yields: the frame in the oldest slot.
    pub open spec fn front(self) -> Option<TouchEventFrame> {
        if self.slots.len() > 0 {
            self.slots[0]
        } else {
            None
        }
    }

    /// The pipeline after a take: the oldest slot is gone.
    pub open spec fn popped(self) -> TouchPipelineModel {
        if self.slots.len() > 0 {
            TouchPipelineModel { slots: self.slots.skip(1), ..self }
        } else {
            self
        }
    }
}

/// The bounded FIFO of touch samples.
pub struct TouchPipeline {
    queue: VecDeque<Option<TouchEventFrame>>,
    dropped_count: u64,
}

impl View for TouchPipeline {
    type V = TouchPipelineModel;

    closed spec fn view(&self) -> TouchPipelineModel {
        TouchPipelineModel { slots: self.queue@, dropped_count: self.dropped_count }
    }
}

impl TouchPipeline {
    #[verifier::type_invariant]
    spec fn inv(self) -> bool {
        self@.wf()
    }

    pub fn new() -> (pipeline: Self)
        ensures
            pipeline@ == TouchPipelineModel::empty(),
    {
        TouchPipeline { queue: VecDeque::new(), dropped_count: 0 }
    }

    /// Takes in one raw sample: maps it onto the canvas, leaves its slot
    /// empty when it falls outside the safe circle, and drops the oldest
    /// slot first when the pipeline is full.
    pub fn push_event(&mut self, payload: TouchEventPayload)
        ensures
            final(self)@ == old(self)@.pushed(payload),
            final(self)@.wf(),
    {
        proof {
            use_type_invariant(&*self);
        }
        let frame = match clamp_and_validate_touch(payload.x, payload.y) {
            Some(point) => Some(TouchEventFrame { point, phase: payload.phase }),
            None => None,
        };
        let mut queue: VecDeque<Option<TouchEventFrame>> = VecDeque::new();
        core::mem::swap(&mut self.queue, &mut queue);
        if queue.len() >= PIPELINE_CAPACITY {
            let _ = queue.pop_front();
            if self.dropped_count < u64::MAX {
                self.dropped_count = self.dropped_count + 1;
            }
            assert(queue@ =~= old(self)@.slots.skip(1));
        }
        queue.push_back(frame);
        self.queue = queue;
    }

    /// Takes the oldest slot out and yields its frame; nothing when the
    /// pipeline is empty or the slot is.
    pub fn next_frame(&mut self) -> (frame: Option<TouchEventFrame>)
        ensures
            frame == old(self)@.front(),
            final(self)@ == old(self)@.popped(),
            final(self)@.wf(),
    {
        proof {
            use_type_invariant(&*self);
        }
        let mut queue: VecDeque<Option<TouchEventFrame>> = VecDeque::new();
        core::mem::swap(&mut self.queue, &mut queue);
        let slot = queue.pop_front();
        proof {
            if old(self)@.slots.len() > 0 {
                assert(queue@ =~= old(self)@.slots.skip(1));
            }
        }
        self.queue = queue;
        match slot {
            Some(frame) => frame,
            None => None,
        }
    }

    /// How many slots are taken: at most 32.
    pub fn queue_depth(&self) -> (depth: usize)
        ensures
            depth == self@.slots.len(),
            depth <= PIPELINE_CAPACITY,
    {
        proof {
            use_type_invariant(self);
        }
        self.queue.len()
    }

    /// How many slots were dropped to make room.
    pub fn dropped_count(&self) -> (count: u64)
        ensures
            count == self@.dropped_count,
    {
        self.dropped_count
    }

    /// Takes in each sample of `batch`, in order, and says how many there
    /// were.
    pub fn push_batch(&mut self, batch: &Vec<TouchEventPayload>) -> (count: usize)
        ensures
            count == batch@.len(),
            final(self)@ == old(self)@.pushed_all(batch@),
            final(self)@.wf(),
    {
        proof {
            use_type_invariant(&*self);
        }
        let mut i: usize = 0;
        assert(batch@.take(0) =~= Seq::<TouchEventPayload>::empty());
        while i < batch.len()
            invariant
                i <= batch.len(),
                self@ == old(self)@.pushed_all(batch@.take(i as int)),
                self@.wf(),
            decreases batch.len() - i,
        {
            self.push_event(batch[i]);
            proof {
                let next = batch@.take(i as int + 1);
                assert(next.drop_last() =~= batch@.take(i as int));
                assert(next.last() == batch@[i as int]);
            }
            i += 1;
        }
        assert(batch@.take(i as int) =~= batch@);
        batch.len()
    }

    /// Takes in the batch that `driver` produces and says how many samples
    /// it held.
    pub fn drain_from_driver<D: TouchDriver>(&mut self, driver: &mut D) -> (count: usize)
        ensures
            exists|batch: Seq<TouchEventPayload>|
                old(driver).produces(batch) && count == batch.len() && final(self)@ == #[trigger] old(
                    self,
                )@.pushed_all(batch),
            final(self)@.wf(),
    {
        let batch = driver.read_batch();
        let count = self.push_batch(&batch);
        assert(old(driver).produces(batch@) && self@ == old(self)@.pushed_all(batch@));
        count
    }
}

/// Taking in a sample never leaves more than 32 slots taken, and never
/// lowers the count of dropped slots.
pub proof fn push_keeps_bound(pipeline: TouchPipelineModel, payload: TouchEventPayload)
    requires
        pipeline.wf(),
    ensures
        pipeline.pushed(payload).wf(),
        pipeline.pushed(payload).dropped_count >= pipeline.dropped_count,
        pipeline.popped().wf(),
{
}

/// Under overflow the pipeline stays a FIFO: after any run of samples it
/// holds the slots of the most recent 32 of them, in arrival order, and it
/// has counted every older one as dropped.
pub proof fn overflow_keeps_latest_in_order(batch: Seq<TouchEventPayload>)
    requires
        batch.len() <= u64::MAX,
    ensures
        TouchPipelineModel::empty().pushed_all(batch).slots == batch.map_values(
            |p: TouchEventPayload| frame_of(p),
        ).skip(
            if batch.len() > PIPELINE_CAPACITY {
                batch.len() - PIPELINE_CAPACITY
            } else {
                0
            },
        ),
        TouchPipelineModel::empty().pushed_all(batch).dropped_count == if batch.len()
            > PIPELINE_CAPACITY {
            batch.len() - PIPELINE_CAPACITY
        } else {
            0
        },
        batch.len() > PIPELINE_CAPACITY ==> TouchPipelineModel::empty().pushed_all(
            batch,
        ).dropped_count > 0,
    decreases batch.len(),
{
    let frames = batch.map_values(|p: TouchEventPayload| frame_of(p));
    if batch.len() == 0 {
        assert(TouchPipelineModel::empty().slots =~= frames.skip(0));
    } else {
        let front = batch.drop_last();
        overflow_keeps_latest_in_order(front);
        let before = TouchPipelineModel::empty().pushed_all(front);
        let front_frames = front.map_values(|p: TouchEventPayload| frame_of(p));
        let after = before.pushed(batch.last());
        assert(frames =~= front_frames.push(frame_of(batch.last())));
        if front.len() >= PIPELINE_CAPACITY {
            assert(after.slots =~= frames.skip(batch.len() - PIPELINE_CAPACITY));
        } else {
            assert(after.slots =~= frames.skip(0));
        }
    }
}

} // verus!
