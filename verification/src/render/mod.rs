//! The part of the rendering subsystem that decides: the mode of the
//! rendering context, and the dispatcher that runs work bound to the
//! context at once or holds it until the context is next active.

pub mod context;
pub mod shaders;

use crate::error::{leaf_error, GenericError};
use std::collections::VecDeque;
use vstd::prelude::*;

verus! {

/// State of the render system.
#[derive(Clone, Copy, Debug, PartialEq, Eq, Structural)]
pub enum RenderMode {
    /// The context is not current; jobs wait.
    Idle,
    /// The context is current on the owner's thread; jobs run at once.
    Rendering,
    /// The render system is destroyed; jobs are dropped.
    Dead,
}

/// What the dispatcher decided for a job.
pub enum Dispatched<J> {
    /// The job waits in the queue for the next active period.
    Queued,
    /// The context is active: the caller runs the job now.
    RunNow(J),
    /// The render system is dead: the job was dropped and never runs.
    Discarded,
}

/// The dispatcher as a value: its mode and the jobs that wait, oldest first.
pub struct DispatchState<J> {
    pub mode: RenderMode,
    pub queue: Seq<J>,
}

/// One thing that can be done to a dispatcher.
pub enum DispatchOp<J> {
    Dispatch(J),
    Begin,
    NextJob,
    End,
    Kill,
}

impl<J> DispatchState<J> {
    /// A dead dispatcher holds no job.
    pub open spec fn wf(self) -> bool {
        self.mode == RenderMode::Dead ==> self.queue.len() == 0
    }

    /// The dispatcher after `job` was submitted: an idle one holds it at
    /// the end of its queue, any other is unchanged.
    pub open spec fn dispatch(self, job: J) -> DispatchState<J> {
        match self.mode {
            RenderMode::Idle => DispatchState { mode: self.mode, queue: self.queue.push(job) },
            _ => self,
        }
    }

    /// Whether the context can be made active.
    pub open spec fn can_begin(self) -> bool {
        self.mode == RenderMode::Idle
    }

    /// The dispatcher after an attempt to make the context active: an
    /// idle one is rendering, any other is unchanged.
    pub open spec fn begin(self) -> DispatchState<J> {
        if self.can_begin() {
            DispatchState { mode: RenderMode::Rendering, queue: self.queue }
        } else {
            self
        }
    }

    /// The job that the drain hands out next, if there is one.
    pub open spec fn front(self) -> Option<J> {
        if self.mode == RenderMode::Rendering && self.queue.len() > 0 {
            Some(self.queue[0])
        } else {
            None
        }
    }

    /// The dispatcher after the drain took a job: without the job that was
    /// handed out, if one was.
    pub open spec fn next_job(self) -> DispatchState<J> {
        if self.front() is Some {
            DispatchState { mode: self.mode, queue: self.queue.skip(1) }
        } else {
            self
        }
    }

    /// The dispatcher after the end of an active period: a rendering one
    /// is idle, any other is unchanged.
    pub open spec fn end(self) -> DispatchState<J> {
        match self.mode {
            RenderMode::Rendering => DispatchState { mode: RenderMode::Idle, queue: self.queue },
            _ => self,
        }
    }

    /// The dispatcher of a render system that was destroyed: dead, with no
    /// job left.
    pub open spec fn kill(self) -> DispatchState<J> {
        DispatchState { mode: RenderMode::Dead, queue: Seq::empty() }
    }

    /// The state after `op`.
    pub open spec fn step(self, op: DispatchOp<J>) -> DispatchState<J> {
        match op {
            DispatchOp::Dispatch(job) => self.dispatch(job),
            DispatchOp::Begin => self.begin(),
            DispatchOp::NextJob => self.next_job(),
            DispatchOp::End => self.end(),
            DispatchOp::Kill => self.kill(),
        }
    }

    /// The jobs that `op` hands to the caller to run.
    pub open spec fn released(self, op: DispatchOp<J>) -> Seq<J> {
        match op {
            DispatchOp::Dispatch(job) => if self.mode == RenderMode::Rendering {
                seq![job]
            } else {
                Seq::empty()
            },
            DispatchOp::NextJob => match self.front() {
                Some(job) => seq![job],
                None => Seq::empty(),
            },
            _ => Seq::empty(),
        }
    }

    /// The state after `ops`, done in order.
    pub open spec fn run(self, ops: Seq<DispatchOp<J>>) -> DispatchState<J>
        decreases ops.len(),
    {
        if ops.len() == 0 {
            self
        } else {
            self.run(ops.drop_last()).step(ops.last())
        }
    }

    /// The jobs that `ops` hand to the caller to run, in order.
    pub open spec fn run_released(self, ops: Seq<DispatchOp<J>>) -> Seq<J>
        decreases ops.len(),
    {
        if ops.len() == 0 {
            Seq::empty()
        } else {
            self.run_released(ops.drop_last()) + self.run(ops.drop_last()).released(ops.last())
        }
    }
}

/// Renderer job dispatcher which decides when jobs run by the mode of the
/// renderer.
///
/// While the renderer is rendering, a job is handed back to run
/// immediately. Otherwise it is held and handed out the next time the
/// renderer is active. Once the render system is destroyed, jobs are
/// discarded.
pub struct JobDispatch<J> {
    mode: RenderMode,
    queue: VecDeque<J>,
}

impl<J> View for JobDispatch<J> {
    type V = DispatchState<J>;

    closed spec fn view(&self) -> DispatchState<J> {
        DispatchState { mode: self.mode, queue: self.queue@ }
    }
}

impl<J> JobDispatch<J> {
    /// A dispatcher for an idle context, with nothing queued.
    pub fn new() -> (r: JobDispatch<J>)
        ensures
            r@.mode == RenderMode::Idle,
            r@.queue == Seq::<J>::empty(),
            r@.wf(),
    {
        JobDispatch { mode: RenderMode::Idle, queue: VecDeque::new() }
    }

    /// The current mode.
    pub fn mode(&self) -> (r: RenderMode)
        ensures
            r == self@.mode,
    {
        self.mode
    }

    /// The number of jobs that wait.
    pub fn pending(&self) -> (r: usize)
        ensures
            r == self@.queue.len(),
    {
        self.queue.len()
    }

    /// Pushes the specified job, or hands it back to be run.
    pub fn dispatch(&mut self, job: J) -> (r: Dispatched<J>)
        ensures
            final(self)@ == old(self)@.dispatch(job),
            match old(self)@.mode {
                RenderMode::Idle => r is Queued,
                RenderMode::Rendering => r == Dispatched::RunNow(job),
                RenderMode::Dead => r is Discarded,
            },
            old(self)@.wf() ==> final(self)@.wf(),
    {
        match self.mode {
            RenderMode::Idle => {
                self.queue.push_back(job);
                Dispatched::Queued
            },
            RenderMode::Rendering => Dispatched::RunNow(job),
            RenderMode::Dead => Dispatched::Discarded,
        }
    }

    /// Makes the context active. Fails, and changes nothing, when it is
    /// active already or the render system is dead.
    pub fn begin(&mut self) -> (r: Result<(), GenericError>)
        ensures
            final(self)@ == old(self)@.begin(),
            r is Ok <==> old(self)@.can_begin(),
            r is Ok ==> final(self)@.mode == RenderMode::Rendering,
            r matches Err(e) ==> match old(self)@.mode {
                RenderMode::Dead => leaf_error("rendering system is dead"@, e),
                _ => leaf_error("recursive rendering"@, e),
            },
            old(self)@.wf() ==> final(self)@.wf(),
    {
        match self.mode {
            RenderMode::Idle => {
                self.mode = RenderMode::Rendering;
                Ok(())
            },
            RenderMode::Rendering => Err(GenericError::from("recursive rendering")),
            RenderMode::Dead => Err(GenericError::from("rendering system is dead")),
        }
    }

    /// Takes the oldest waiting job, for the caller to run. Hands out
    /// nothing unless the context is active.
    pub fn next_job(&mut self) -> (r: Option<J>)
        ensures
            r == old(self)@.front(),
            final(self)@ == old(self)@.next_job(),
            old(self)@.wf() ==> final(self)@.wf(),
    {
        match self.mode {
            RenderMode::Rendering => {
                let job = self.queue.pop_front();
                assert(job is Some ==> self.queue@ =~= old(self).queue@.skip(1));
                job
            },
            _ => None,
        }
    }

    /// Ends the active period. Cannot fail, so that it can stand on every
    /// way out of the period.
    pub fn end(&mut self)
        ensures
            final(self)@ == old(self)@.end(),
            old(self)@.mode == RenderMode::Rendering ==> final(self)@.mode == RenderMode::Idle,
            old(self)@.wf() ==> final(self)@.wf(),
    {
        match self.mode {
            RenderMode::Rendering => {
                self.mode = RenderMode::Idle;
            },
            _ => {},
        }
    }

    /// Marks the render system as destroyed and drops the jobs that wait.
    pub fn kill(&mut self)
        ensures
            final(self)@ == old(self)@.kill(),
            final(self)@.wf(),
    {
        self.mode = RenderMode::Dead;
        self.queue.clear();
    }
}

/// `count` times `NextJob`.
pub open spec fn drain_ops<J>(count: nat) -> Seq<DispatchOp<J>> {
    Seq::new(count, |i: int| DispatchOp::NextJob)
}

/// A job submitted while the context is active is handed back at once, and
/// the dispatcher is as it was.
pub proof fn lemma_active_job_runs_now<J>(s: DispatchState<J>, job: J)
    requires
        s.mode == RenderMode::Rendering,
    ensures
        s.released(DispatchOp::Dispatch(job)) == seq![job],
        s.step(DispatchOp::Dispatch(job)) == s,
{
}

/// Whatever is done to a dispatcher while its context is not active, no job
/// is handed out: a job submitted while idle does not run before the next
/// active period.
pub proof fn lemma_nothing_runs_while_inactive<J>(s: DispatchState<J>, ops: Seq<DispatchOp<J>>)
    requires
        s.mode != RenderMode::Rendering,
        forall|i: int| 0 <= i < ops.len() ==> !(#[trigger] ops[i] is Begin),
    ensures
        s.run(ops).mode != RenderMode::Rendering,
        s.run_released(ops) == Seq::<J>::empty(),
    decreases ops.len(),
{
    if ops.len() > 0 {
        let init = ops.drop_last();
        assert forall|i: int| 0 <= i < init.len() implies !(#[trigger] init[i] is Begin) by {
            assert(init[i] == ops[i]);
        }
        lemma_nothing_runs_while_inactive(s, init);
        assert(!(ops[ops.len() - 1] is Begin));
    }
}

/// The drain of an active period hands out the waiting jobs oldest first:
/// after `count` jobs were taken, the first `count` of the queue have been
/// handed out and the others still wait.
pub proof fn lemma_drain_is_fifo<J>(s: DispatchState<J>, count: nat)
    requires
        s.mode == RenderMode::Rendering,
        count <= s.queue.len(),
    ensures
        s.run(drain_ops(count)).mode == RenderMode::Rendering,
        s.run(drain_ops(count)).queue == s.queue.skip(count as int),
        s.run_released(drain_ops(count)) == s.queue.take(count as int),
    decreases count,
{
    let ops = drain_ops::<J>(count);
    if count == 0 {
        assert(s.queue.skip(0) =~= s.queue);
        assert(s.queue.take(0) =~= Seq::<J>::empty());
    } else {
        let before = (count - 1) as nat;
        assert(ops.drop_last() =~= drain_ops::<J>(before));
        lemma_drain_is_fifo(s, before);
        let mid = s.run(drain_ops(before));
        assert(mid.queue[0] == s.queue[before as int]);
        assert(mid.queue.skip(1) =~= s.queue.skip(count as int));
        assert(s.queue.take(before as int) + seq![s.queue[before as int]] =~= s.queue.take(
            count as int,
        ));
    }
}

/// A job submitted while the context is idle runs in the drain of the next
/// active period, after the jobs that waited before it and before any
/// other.
pub proof fn lemma_idle_job_runs_in_next_drain<J>(s: DispatchState<J>, job: J)
    requires
        s.mode == RenderMode::Idle,
    ensures
        s.released(DispatchOp::Dispatch(job)) == Seq::<J>::empty(),
        s.dispatch(job).can_begin(),
        s.dispatch(job).begin().run_released(drain_ops(s.queue.len() + 1)) == s.queue.push(job),
        s.dispatch(job).begin().run(drain_ops(s.queue.len() + 1)).queue == Seq::<J>::empty(),
{
    let active = s.dispatch(job).begin();
    lemma_drain_is_fifo(active, s.queue.len() + 1);
    assert(active.queue.take(s.queue.len() as int + 1) =~= s.queue.push(job));
    assert(active.queue.skip(s.queue.len() as int + 1) =~= Seq::<J>::empty());
}

/// Once the render system is dead it stays dead, and no job runs again:
/// none waits, and one submitted later is dropped.
pub proof fn lemma_dead_is_terminal<J>(s: DispatchState<J>, ops: Seq<DispatchOp<J>>)
    requires
        s.mode == RenderMode::Dead,
        s.wf(),
    ensures
        s.run(ops) == s,
        s.run_released(ops) == Seq::<J>::empty(),
    decreases ops.len(),
{
    if ops.len() > 0 {
        lemma_dead_is_terminal(s, ops.drop_last());
        assert(s.queue =~= Seq::<J>::empty());
    }
}

/// Nothing that is done to a dispatcher leaves a job waiting in a dead one.
pub proof fn lemma_dead_has_no_jobs<J>(s: DispatchState<J>, ops: Seq<DispatchOp<J>>)
    requires
        s.wf(),
    ensures
        s.run(ops).wf(),
    decreases ops.len(),
{
    if ops.len() > 0 {
        lemma_dead_has_no_jobs(s, ops.drop_last());
    }
}

/// An active context cannot be entered again, and the attempt changes
/// nothing.
pub proof fn lemma_no_recursive_activation<J>(s: DispatchState<J>)
    requires
        s.mode == RenderMode::Rendering,
    ensures
        !s.can_begin(),
        s.begin() == s,
{
}

/// An active period that is entered from idle stays active through the
/// work done in it, whatever jobs that work submits or takes, and its end
/// returns the context to idle with the jobs that still wait.
pub proof fn lemma_active_period_returns_to_idle<J>(s: DispatchState<J>, work: Seq<DispatchOp<J>>)
    requires
        s.mode == RenderMode::Idle,
        forall|i: int|
            0 <= i < work.len() ==> (#[trigger] work[i] is Dispatch || work[i] is NextJob
                || work[i] is Begin),
    ensures
        s.begin().run(work).mode == RenderMode::Rendering,
        s.begin().run(work).end().mode == RenderMode::Idle,
        s.begin().run(work).end().queue == s.begin().run(work).queue,
        s.begin().run(work).end().can_begin(),
    decreases work.len(),
{
    if work.len() > 0 {
        let init = work.drop_last();
        assert forall|i: int| 0 <= i < init.len() implies (#[trigger] init[i] is Dispatch
            || init[i] is NextJob || init[i] is Begin) by {
            assert(init[i] == work[i]);
        }
        lemma_active_period_returns_to_idle(s, init);
        assert(work[work.len() - 1] is Dispatch || work[work.len() - 1] is NextJob || work[work.len()
            - 1] is Begin);
    }
}

} // verus!
