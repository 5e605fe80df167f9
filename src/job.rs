use vstd::prelude::*;
use std::sync::Arc;
use crate::scene::{Object, Scene};

verus! {

/// Segments that one snapshot may produce in all, across its jobs.
pub const SNAPSHOT_SEGMENT_BUDGET: usize = 4096;

/// Segments that one job asks for at most.
pub const JOB_SEGMENT_QUOTA: usize = 256;

/// A unit of work for one tracer: a shared, read-only scene snapshot and the
/// number of segments to produce from it.
pub struct Job {
    scene: Arc<Scene>,
    segments_to_produce: usize,
}

impl Job {
    /// A job that traces `scene` for `segments_to_produce` segments.
    pub fn new(scene: Scene, segments_to_produce: usize) -> (r: Job)
        ensures
            r.scene() == scene@,
            r.segments_to_produce() == segments_to_produce,
    {
        Job { scene: Arc::new(scene), segments_to_produce }
    }

    pub closed spec fn scene(&self) -> Seq<Object> {
        self.scene@
    }

    pub closed spec fn segments_to_produce(&self) -> usize {
        self.segments_to_produce
    }

    /// The snapshot this job traces.
    pub fn get_scene(&self) -> (r: &Scene)
        ensures
            r@ == self.scene(),
    {
        &self.scene
    }

    /// The segment quota of this job.
    pub fn get_segments_to_produce(&self) -> (r: usize)
        ensures
            r == self.segments_to_produce(),
    {
        self.segments_to_produce
    }
}

/// The single source of trace work: the current snapshot and what is left of
/// its segment budget.
pub struct JobProducer {
    scene: Arc<Scene>,
    remaining: usize,
    /// The snapshots handed to `reset`, oldest first.
    resets: Ghost<Seq<Seq<Object>>>,
}

impl JobProducer {
    /// The budget never exceeds a snapshot's allowance, and while any of it is
    /// left the current snapshot is the argument of the latest reset.
    pub closed spec fn wf(&self) -> bool {
        &&& self.remaining <= SNAPSHOT_SEGMENT_BUDGET
        &&& self.remaining > 0 ==> self.resets@.len() > 0 && self.scene@ == self.resets@.last()
    }

    /// The current snapshot.
    pub closed spec fn snapshot(&self) -> Seq<Object> {
        self.scene@
    }

    /// Segments still to be handed out for the current snapshot.
    pub closed spec fn remaining(&self) -> nat {
        self.remaining as nat
    }

    /// Every snapshot handed to `reset`, oldest first.
    pub closed spec fn resets(&self) -> Seq<Seq<Object>> {
        self.resets@
    }

    /// A producer with an empty snapshot and no work.
    pub fn new() -> (r: JobProducer)
        ensures
            r.wf(),
            r.snapshot() == Seq::<Object>::empty(),
            r.remaining() == 0,
            r.resets() == Seq::<Seq<Object>>::empty(),
    {
        JobProducer { scene: Arc::new(Scene::new()), remaining: 0, resets: Ghost(Seq::empty()) }
    }

    /// Replaces the snapshot and refills the budget.
    pub fn reset(&mut self, latest_scene: Scene)
        requires
            old(self).wf(),
        ensures
            final(self).wf(),
            final(self).snapshot() == latest_scene@,
            final(self).remaining() == SNAPSHOT_SEGMENT_BUDGET,
            final(self).resets() == old(self).resets().push(latest_scene@),
    {
        let ghost s = latest_scene@;
        self.scene = Arc::new(latest_scene);
        self.remaining = SNAPSHOT_SEGMENT_BUDGET;
        self.resets = Ghost(self.resets@.push(s));
    }

    /// Hands out the next job of the current snapshot, or `None` once its
    /// budget is spent. Never waits.
    pub fn take_job(&mut self) -> (r: Option<Job>)
        requires
            old(self).wf(),
        ensures
            final(self).wf(),
            final(self).snapshot() == old(self).snapshot(),
            final(self).resets() == old(self).resets(),
            old(self).remaining() == 0 ==> r is None && final(self).remaining() == 0,
            old(self).remaining() > 0 ==> (r matches Some(j)
                && j.scene() == old(self).snapshot()
                && old(self).resets().len() > 0
                && j.scene() == old(self).resets().last()
                && j.segments_to_produce() == if old(self).remaining() < JOB_SEGMENT_QUOTA {
                    old(self).remaining()
                } else {
                    JOB_SEGMENT_QUOTA as nat
                }
                && final(self).remaining() == old(self).remaining() - j.segments_to_produce()),
    {
        if self.remaining == 0 {
            return None;
        }
        let quota = if self.remaining < JOB_SEGMENT_QUOTA {
            self.remaining
        } else {
            JOB_SEGMENT_QUOTA
        };
        self.remaining = self.remaining - quota;
        Some(Job { scene: self.scene.clone(), segments_to_produce: quota })
    }
}

/// While a well-formed producer has work left, its snapshot is whole the
/// argument of its latest reset, so every job it hands out carries the scene
/// of one single reset and never a mix of two.
pub proof fn lemma_snapshot_is_latest_reset(p: &JobProducer)
    requires
        p.wf(),
        p.remaining() > 0,
    ensures
        p.resets().len() > 0,
        p.snapshot() == p.resets().last(),
{
}

/// The producer that the tracer pool shares.
pub type TracerJobProducer = JobProducer;

} // verus!
