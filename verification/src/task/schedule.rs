//! What draining the ready queue does to the tasks of an executor, turn by
//! turn, for computations that leave the executor alone but for waking
//! themselves. The registry's `run_ready_tasks` leaves the executor as
//! `turns` says, for the turns that it took.

use vstd::prelude::*;

use crate::task::executor::ExecutorState;
use crate::task::{Step, Task};

verus! {

/// What one resumed step does: how it ends, whether the computation wakes
/// itself while it runs, and the computation as the step leaves it.
pub struct Resumption<C> {
    pub step: Step,
    pub rewake: bool,
    pub computation: C,
}

impl<C> ExecutorState<C> {
    /// One turn of a drain: the oldest ready id leaves the queue; if
    /// its task is parked, the task is taken out and resumed, which may put
    /// its id back on the queue, and is then dropped or parked again.
    pub open spec fn turn(self, resumption: Resumption<C>) -> Self {
        match self.front() {
            None => self,
            Some(task_id) => {
                let popped = self.pop();
                match popped.task_to_run(task_id) {
                    None => popped,
                    Some((task, waker)) => {
                        let taken = popped.take_task(task_id);
                        let resumed = if resumption.rewake && taken.has_room() {
                            taken.wake(waker.task_id)
                        } else {
                            taken
                        };
                        resumed.settle(
                            Task { computation: resumption.computation, ..task },
                            resumption.step,
                        )
                    },
                }
            },
        }
    }

    /// The executor after `n` turns, each with the resumption of its number.
    pub open spec fn turns(self, resumptions: Seq<Resumption<C>>, n: int) -> Self
        decreases n,
    {
        if n <= 0 {
            self
        } else {
            self.turns(resumptions, n - 1).turn(resumptions[n - 1])
        }
    }
}

/// One turn leaves an executor well formed, and takes off the queue the id
/// at its front and no other.
pub proof fn lemma_turn<C>(executor: ExecutorState<C>, resumption: Resumption<C>)
    requires
        executor.wf(),
        executor.ready.len() > 0,
    ensures
        executor.turn(resumption).wf(),
        executor.ready.len() - 1 <= executor.turn(resumption).ready.len() <= executor.ready.len(),
        forall|i: int|
            1 <= i < executor.ready.len() ==> executor.turn(resumption).ready[i - 1]
                == #[trigger] executor.ready[i],
{
}

/// Turns leave an executor well formed.
pub proof fn lemma_turns_keep_executor<C>(
    executor: ExecutorState<C>,
    resumptions: Seq<Resumption<C>>,
    n: int,
)
    requires
        executor.wf(),
    ensures
        executor.turns(resumptions, n).wf(),
    decreases n,
{
    if n > 0 {
        lemma_turns_keep_executor(executor, resumptions, n - 1);
        let before = executor.turns(resumptions, n - 1);
        if before.ready.len() > 0 {
            lemma_turn(before, resumptions[n - 1]);
        }
    }
}

/// After `n` turns, the ids that were ready at the start and have not had
/// their turn are the front of the queue, in their order.
pub proof fn lemma_turns<C>(executor: ExecutorState<C>, resumptions: Seq<Resumption<C>>, n: int)
    requires
        executor.wf(),
        0 <= n <= executor.ready.len(),
    ensures
        executor.turns(resumptions, n).wf(),
        executor.ready.len() - n <= executor.turns(resumptions, n).ready.len()
            <= executor.ready.len(),
        forall|i: int|
            n <= i < executor.ready.len() ==> executor.turns(resumptions, n).ready[i - n]
                == #[trigger] executor.ready[i],
    decreases n,
{
    if n > 0 {
        lemma_turns(executor, resumptions, n - 1);
        let before = executor.turns(resumptions, n - 1);
        assert(before.ready[0] == executor.ready[n - 1]);
        lemma_turn(before, resumptions[n - 1]);
        assert forall|i: int| n <= i < executor.ready.len() implies executor.turns(
            resumptions,
            n,
        ).ready[i - n] == #[trigger] executor.ready[i] by {
            assert(before.ready[i - (n - 1)] == executor.ready[i]);
        }
    }
}

/// The first `n` turns depend on the first `n` resumptions alone.
pub proof fn lemma_turns_of_prefix<C>(
    executor: ExecutorState<C>,
    shorter: Seq<Resumption<C>>,
    longer: Seq<Resumption<C>>,
    n: int,
)
    requires
        0 <= n <= shorter.len() <= longer.len(),
        forall|i: int| 0 <= i < n ==> shorter[i] == longer[i],
    ensures
        executor.turns(shorter, n) == executor.turns(longer, n),
    decreases n,
{
    if n > 0 {
        lemma_turns_of_prefix(executor, shorter, longer, n - 1);
    }
}

/// Ids have their turn in the order in which they became ready, each of
/// them once: the turn after the first `n` is that of the `n`-th id that
/// was ready at the start.
pub proof fn lemma_turns_are_first_in_first_out<C>(
    executor: ExecutorState<C>,
    resumptions: Seq<Resumption<C>>,
    n: int,
)
    requires
        executor.wf(),
        0 <= n < executor.ready.len(),
    ensures
        executor.turns(resumptions, n).front() == Some(executor.ready[n]),
{
    lemma_turns(executor, resumptions, n);
    assert(executor.turns(resumptions, n).ready[n - n] == executor.ready[n]);
}

/// A task is resumed with the wake handle bound to its own id, and that
/// handle is kept for as long as the task has not completed.
pub proof fn lemma_handle_is_bound_to_its_task<C>(executor: ExecutorState<C>, task_id: u64)
    requires
        executor.wf(),
    ensures
        executor.waker_for(task_id).task_id == task_id,
        executor.parked.contains_key(task_id) ==> {
            &&& executor.task_to_run(task_id) matches Some((task, waker)) && waker.task_id
                == task_id
            &&& executor.take_task(task_id).wakers.contains_key(task_id)
            &&& executor.take_task(task_id).waker_for(task_id) == executor.waker_for(task_id)
        },
{
}

/// Whether a task is either parked with its id ready, or gone with its
/// wake handle.
pub open spec fn ready_or_gone<C>(executor: ExecutorState<C>, task_id: u64) -> bool {
    ||| executor.parked.contains_key(task_id) && executor.ready.contains(task_id)
    ||| !executor.parked.contains_key(task_id) && !executor.wakers.contains_key(task_id)
}

/// One turn keeps a task ready or gone, if the task runs to the end when
/// the turn is its own.
proof fn lemma_turn_of_completing<C>(
    executor: ExecutorState<C>,
    resumption: Resumption<C>,
    task_id: u64,
)
    requires
        executor.wf(),
        ready_or_gone(executor, task_id),
        executor.front() == Some(task_id) && executor.parked.contains_key(task_id)
            ==> resumption.step == Step::Complete,
    ensures
        ready_or_gone(executor.turn(resumption), task_id),
{
    if executor.ready.len() > 0 {
        let after = executor.turn(resumption);
        let front = executor.ready[0];
        assert(executor.waker_for(front).task_id == front);
        if executor.parked.contains_key(task_id) && front != task_id {
            let at = choose|i: int| 0 <= i < executor.ready.len() && executor.ready[i] == task_id;
            assert(at >= 1);
            assert(executor.pop().ready[at - 1] == task_id);
            assert(after.ready[at - 1] == task_id);
        }
    }
}

/// A task that never suspends completes before the queue is drained: if it
/// is parked with its id ready, and each step that it is resumed for runs
/// to the end, then once the queue is empty it is neither parked nor has a
/// wake handle.
pub proof fn lemma_task_completes<C>(
    executor: ExecutorState<C>,
    resumptions: Seq<Resumption<C>>,
    task_id: u64,
    n: int,
)
    requires
        executor.wf(),
        executor.parked.contains_key(task_id),
        executor.ready.contains(task_id),
        forall|i: int|
            0 <= i < n && (#[trigger] executor.turns(resumptions, i)).front() == Some(task_id)
                && executor.turns(resumptions, i).parked.contains_key(task_id)
                ==> resumptions[i].step == Step::Complete,
        executor.turns(resumptions, n).ready.len() == 0,
    ensures
        !executor.turns(resumptions, n).parked.contains_key(task_id),
        !executor.turns(resumptions, n).wakers.contains_key(task_id),
{
    lemma_completing_by(executor, resumptions, task_id, n);
}

proof fn lemma_completing_by<C>(
    executor: ExecutorState<C>,
    resumptions: Seq<Resumption<C>>,
    task_id: u64,
    n: int,
)
    requires
        executor.wf(),
        ready_or_gone(executor, task_id),
        forall|i: int|
            0 <= i < n && (#[trigger] executor.turns(resumptions, i)).front() == Some(task_id)
                && executor.turns(resumptions, i).parked.contains_key(task_id)
                ==> resumptions[i].step == Step::Complete,
    ensures
        ready_or_gone(executor.turns(resumptions, n), task_id),
    decreases n,
{
    if n > 0 {
        lemma_completing_by(executor, resumptions, task_id, n - 1);
        lemma_turns_keep_executor(executor, resumptions, n - 1);
        let before = executor.turns(resumptions, n - 1);
        lemma_turn_of_completing(before, resumptions[n - 1], task_id);
    }
}

/// One turn does not lose a task that is ready while it is parked, if the
/// task wakes itself whenever it suspends in a turn of its own.
proof fn lemma_turn_of_woken<C>(
    executor: ExecutorState<C>,
    resumption: Resumption<C>,
    task_id: u64,
)
    requires
        executor.wf(),
        executor.parked.contains_key(task_id) ==> executor.ready.contains(task_id),
        executor.front() == Some(task_id) && executor.parked.contains_key(task_id)
            && resumption.step == Step::Suspended ==> resumption.rewake,
    ensures
        executor.turn(resumption).parked.contains_key(task_id) ==> executor.turn(
            resumption,
        ).ready.contains(task_id),
{
    if executor.ready.len() > 0 {
        let after = executor.turn(resumption);
        let front = executor.ready[0];
        let popped = executor.pop();
        assert(executor.waker_for(front).task_id == front);
        if front == task_id {
            if executor.parked.contains_key(task_id) && resumption.step == Step::Suspended {
                let taken = popped.take_task(task_id);
                assert(taken.has_room());
                assert(after.ready == popped.ready.push(task_id));
                assert(after.ready.last() == task_id);
            }
        } else if executor.parked.contains_key(task_id) {
            let at = choose|i: int| 0 <= i < executor.ready.len() && executor.ready[i] == task_id;
            assert(at >= 1);
            assert(popped.ready[at - 1] == task_id);
            assert(after.ready[at - 1] == task_id);
        }
    }
}

/// No wake is lost: a task that is ready while it is parked, and that wakes
/// itself whenever it suspends, is ready whenever it is parked, after any
/// number of turns. So it is resumed again before the queue is drained.
pub proof fn lemma_woken_task_is_not_lost<C>(
    executor: ExecutorState<C>,
    resumptions: Seq<Resumption<C>>,
    task_id: u64,
    n: int,
)
    requires
        executor.wf(),
        executor.parked.contains_key(task_id) ==> executor.ready.contains(task_id),
        forall|i: int|
            0 <= i < n && (#[trigger] executor.turns(resumptions, i)).front() == Some(task_id)
                && executor.turns(resumptions, i).parked.contains_key(task_id)
                && resumptions[i].step == Step::Suspended ==> resumptions[i].rewake,
    ensures
        executor.turns(resumptions, n).parked.contains_key(task_id) ==> executor.turns(
            resumptions,
            n,
        ).ready.contains(task_id),
    decreases n,
{
    if n > 0 {
        lemma_woken_task_is_not_lost(executor, resumptions, task_id, n - 1);
        lemma_turns_keep_executor(executor, resumptions, n - 1);
        let before = executor.turns(resumptions, n - 1);
        lemma_turn_of_woken(before, resumptions[n - 1], task_id);
    }
}

/// A parked task whose id is not ready is left alone: it stays parked as it
/// is, and its id does not become ready.
pub proof fn lemma_unready_task_stays_parked<C>(
    executor: ExecutorState<C>,
    resumptions: Seq<Resumption<C>>,
    task_id: u64,
    n: int,
)
    requires
        executor.wf(),
        executor.parked.contains_key(task_id),
        !executor.ready.contains(task_id),
    ensures
        executor.turns(resumptions, n).parked.contains_key(task_id),
        executor.turns(resumptions, n).parked[task_id] == executor.parked[task_id],
        !executor.turns(resumptions, n).ready.contains(task_id),
    decreases n,
{
    if n > 0 {
        lemma_unready_task_stays_parked(executor, resumptions, task_id, n - 1);
        lemma_turns_keep_executor(executor, resumptions, n - 1);
        let before = executor.turns(resumptions, n - 1);
        let after = before.turn(resumptions[n - 1]);
        if before.ready.len() > 0 {
            let front = before.ready[0];
            assert(before.ready.contains(front));
            assert(front != task_id);
            assert(before.waker_for(front).task_id == front);
            assert forall|i: int| 0 <= i < after.ready.len() implies after.ready[i]
                != task_id by {
                if i < before.ready.len() - 1 {
                    assert(after.ready[i] == before.ready[i + 1]);
                    assert(before.ready.contains(before.ready[i + 1]));
                }
            }
        }
    }
}

/// Where no resumed computation wakes itself, the queue is empty after as
/// many turns as ids were ready at the start, and no task is parked that
/// was not parked before.
pub proof fn lemma_drain_without_wakes<C>(
    executor: ExecutorState<C>,
    resumptions: Seq<Resumption<C>>,
    n: int,
)
    requires
        executor.wf(),
        0 <= n <= executor.ready.len(),
        forall|i: int|
            0 <= i < n && (#[trigger] executor.turns(resumptions, i)).parked.contains_key(
                executor.ready[i],
            ) ==> !resumptions[i].rewake,
    ensures
        executor.turns(resumptions, n).ready.len() == executor.ready.len() - n,
        forall|task_id: u64| #[trigger]
            executor.turns(resumptions, n).parked.contains_key(task_id)
                ==> executor.parked.contains_key(task_id),
    decreases n,
{
    if n > 0 {
        lemma_drain_without_wakes(executor, resumptions, n - 1);
        lemma_turns(executor, resumptions, n - 1);
        let before = executor.turns(resumptions, n - 1);
        assert(before.ready.len() > 0);
        assert(before.ready[0] == executor.ready[n - 1]);
    }
}

} // verus!
