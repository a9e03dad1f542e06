//! Tasks: one suspendable computation each, resumed one step at a time.

pub mod executor;
pub mod ready_queue;
pub mod schedule;

use vstd::prelude::*;

use crate::module::AccessLevel;
use crate::reducer::ReducerContext;
use crate::spacetime_core::ReducerScope;
use crate::task::executor::Executor;

verus! {

/// How one step of a computation ended.
#[derive(Clone, Copy, Debug, PartialEq, Eq, Structural)]
pub enum Step {
    /// The computation has run to its end.
    Complete,
    /// The computation waits to be woken.
    Suspended,
}

/// The wake handle of one task: invoking it makes the task ready again.
#[derive(Clone, Copy, Debug, PartialEq, Eq, Structural)]
pub struct TaskWaker {
    pub task_id: u64,
}

/// A computation that runs in steps, in a registry whose rows are of the
/// kind `R` and whose jobs are of type `J`. While a step runs, the
/// computation has the registry to itself, within the scope of its
/// reducer's call: it may touch what its context may access, call reducers
/// and wake tasks.
pub trait Computation<R, J>: Sized {
    fn resume(&mut self, scope: &mut ReducerScope<R, Self, J>, waker: &TaskWaker) -> Step;
}

/// One computation on its way to completion, with the reducer call it
/// stems from.
pub struct Task<C> {
    pub id: u64,
    pub module_id: u64,
    pub reducer_id: u64,
    /// The access level that the computation acts with: that of the
    /// reducer's module when the reducer was called.
    pub access_level: AccessLevel,
    pub computation: C,
}

impl<C> Task<C> {
    pub fn new(
        id: u64,
        module_id: u64,
        reducer_id: u64,
        access_level: AccessLevel,
        computation: C,
    ) -> (task: Self)
        ensures
            task == (Task { id, module_id, reducer_id, access_level, computation }),
    {
        Task { id, module_id, reducer_id, access_level, computation }
    }

    /// The context that the computation acts in.
    pub fn ctx(&self) -> (ctx: ReducerContext)
        ensures
            ctx == self.context(),
    {
        ReducerContext::new(self.module_id, self.reducer_id, self.access_level)
    }

    /// The context that the computation acts in.
    pub open spec fn context(self) -> ReducerContext {
        ReducerContext {
            access_level: self.access_level,
            reducer_id: self.reducer_id,
            module_id: self.module_id,
        }
    }

    /// Resumes the computation once, with this registry and wake handle: the
    /// result and both changes are that step's own. The task keeps its ids.
    pub fn poll<R, J>(&mut self, scope: &mut ReducerScope<R, C, J>, waker: &TaskWaker) -> (step:
        Step) where C: Computation<R, J>
        ensures
            (exists|computation: &mut C, registry: &mut ReducerScope<R, C, J>|
                {
                    &&& mut_ref_current(computation) == old(self).computation
                    &&& mut_ref_future(computation) == final(self).computation
                    &&& mut_ref_current(registry) == *old(scope)
                    &&& mut_ref_future(registry) == *final(scope)
                    &&& #[trigger] call_ensures(C::resume, (computation, registry, waker), step)
                }),
            final(self).id == old(self).id,
            final(self).module_id == old(self).module_id,
            final(self).reducer_id == old(self).reducer_id,
            final(self).access_level == old(self).access_level,
    {
        self.computation.resume(scope, waker)
    }
}

impl TaskWaker {
    pub fn new(task_id: u64) -> (waker: Self)
        ensures
            waker.task_id == task_id,
    {
        TaskWaker { task_id }
    }

    /// Puts the task's id at the back of the executor's ready queue.
    pub fn wake_task<C>(&self, executor: &mut Executor<C>)
        requires
            old(executor)@.has_room(),
        ensures
            final(executor)@ == old(executor)@.wake(self.task_id),
    {
        executor.wake(self.task_id)
    }
}

} // verus!
