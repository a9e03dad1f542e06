//! The executor: the set of parked tasks, the bounded queue of ready task
//! ids, and the wake handles it has given out.

use crossbeam_queue::ArrayQueue;
use std::collections::BTreeMap;
use vstd::prelude::*;

use crate::task::ready_queue::{
    queue_capacity, queue_contents, queue_is_empty, queue_len, queue_new, queue_pop, queue_push,
};
use crate::module::AccessLevel;
use crate::task::{Step, Task, TaskWaker};

verus! {

/// The number of task ids that the ready queue holds at most.
pub const MAX_NUMBER_TASKS: usize = 100;

/// What an executor is, as a mathematical value.
#[verifier::ext_equal]
pub struct ExecutorState<C> {
    /// The tasks that wait, by id. A task that is being resumed is not here.
    pub parked: Map<u64, Task<C>>,
    /// The ids that were woken, oldest first.
    pub ready: Seq<u64>,
    pub capacity: nat,
    /// The wake handles given out to tasks that have not completed.
    pub wakers: Map<u64, TaskWaker>,
    pub next_task_id: nat,
}

impl<C> ExecutorState<C> {
    /// Every parked task and every wake handle carries the id it is stored
    /// under, every parked id was handed out by the counter, and the ready
    /// queue is within its fixed capacity.
    pub open spec fn wf(self) -> bool {
        &&& self.next_task_id <= u64::MAX
        &&& self.capacity == MAX_NUMBER_TASKS
        &&& self.ready.len() <= self.capacity
        &&& forall|task_id: u64| #[trigger]
            self.parked.contains_key(task_id) ==> {
                &&& self.parked[task_id].id == task_id
                &&& task_id < self.next_task_id
            }
        &&& forall|task_id: u64| #[trigger]
            self.wakers.contains_key(task_id) ==> self.wakers[task_id].task_id == task_id
    }

    pub open spec fn empty() -> Self {
        ExecutorState {
            parked: Map::empty(),
            ready: Seq::empty(),
            capacity: MAX_NUMBER_TASKS as nat,
            wakers: Map::empty(),
            next_task_id: 0,
        }
    }

    /// Whether the ready queue can take one more id.
    pub open spec fn has_room(self) -> bool {
        self.ready.len() < self.capacity
    }

    pub open spec fn fresh_task_id(self) -> u64 {
        self.next_task_id as u64
    }

    /// Whether a new task can be registered and made ready.
    pub open spec fn can_spawn(self) -> bool {
        self.has_room() && self.next_task_id < u64::MAX
    }

    /// A new task is parked under a fresh id, and that id is made ready.
    pub open spec fn spawn(
        self,
        module_id: u64,
        reducer_id: u64,
        access_level: AccessLevel,
        computation: C,
    ) -> Self {
        ExecutorState {
            parked: self.parked.insert(
                self.fresh_task_id(),
                Task {
                    id: self.fresh_task_id(),
                    module_id,
                    reducer_id,
                    access_level,
                    computation,
                },
            ),
            ready: self.ready.push(self.fresh_task_id()),
            next_task_id: self.next_task_id + 1,
            ..self
        }
    }

    pub open spec fn wake(self, task_id: u64) -> Self {
        ExecutorState { ready: self.ready.push(task_id), ..self }
    }

    /// The id that has been ready for longest, if any.
    pub open spec fn front(self) -> Option<u64> {
        if self.ready.len() > 0 {
            Some(self.ready.first())
        } else {
            None
        }
    }

    pub open spec fn pop(self) -> Self {
        if self.ready.len() > 0 {
            ExecutorState { ready: self.ready.drop_first(), ..self }
        } else {
            self
        }
    }

    /// The wake handle of `task_id`: the one given out before, else a new one.
    pub open spec fn waker_for(self, task_id: u64) -> TaskWaker {
        if self.wakers.contains_key(task_id) {
            self.wakers[task_id]
        } else {
            TaskWaker { task_id }
        }
    }

    /// The parked task `task_id` with its wake handle, if it is parked.
    pub open spec fn task_to_run(self, task_id: u64) -> Option<(Task<C>, TaskWaker)> {
        if self.parked.contains_key(task_id) {
            Some((self.parked[task_id], self.waker_for(task_id)))
        } else {
            None
        }
    }

    /// A parked task leaves the parked set to be resumed, and its wake
    /// handle is kept; an id that is not parked changes nothing.
    pub open spec fn take_task(self, task_id: u64) -> Self {
        if self.parked.contains_key(task_id) {
            ExecutorState {
                parked: self.parked.remove(task_id),
                wakers: self.wakers.insert(task_id, self.waker_for(task_id)),
                ..self
            }
        } else {
            self
        }
    }

    /// Whether the executor differs from `earlier` in its tasks only by
    /// tasks that were added under fresh ids.
    pub open spec fn only_adds_tasks_to(self, earlier: Self) -> bool {
        &&& earlier.next_task_id <= self.next_task_id
        &&& forall|task_id: u64| #[trigger]
            self.parked.contains_key(task_id) ==> earlier.parked.contains_key(task_id)
                || earlier.next_task_id <= task_id
    }

    /// Whether a task that was resumed can be taken back with this outcome:
    /// a suspended task needs its id to be free, and to be one of this
    /// executor's.
    pub open spec fn can_settle(self, task: Task<C>, step: Step) -> bool {
        step == Step::Suspended ==> !self.parked.contains_key(task.id) && task.id
            < self.next_task_id
    }

    /// A completed task is dropped with its wake handle; a suspended task is
    /// parked again.
    pub open spec fn settle(self, task: Task<C>, step: Step) -> Self {
        match step {
            Step::Complete => ExecutorState { wakers: self.wakers.remove(task.id), ..self },
            Step::Suspended => ExecutorState { parked: self.parked.insert(task.id, task), ..self },
        }
    }
}

/// Owns the parked tasks and the ready queue, and hands out task ids.
pub struct Executor<C> {
    tasks: BTreeMap<u64, Task<C>>,
    task_queue: ArrayQueue<u64>,
    waker_cache: BTreeMap<u64, TaskWaker>,
    next_task_id: u64,
}

impl<C> View for Executor<C> {
    type V = ExecutorState<C>;

    closed spec fn view(&self) -> ExecutorState<C> {
        ExecutorState {
            parked: self.tasks@,
            ready: queue_contents(self.task_queue),
            capacity: queue_capacity(self.task_queue),
            wakers: self.waker_cache@,
            next_task_id: self.next_task_id as nat,
        }
    }
}

impl<C> Executor<C> {
    #[verifier::type_invariant]
    spec fn inv(self) -> bool {
        &&& queue_capacity(self.task_queue) == MAX_NUMBER_TASKS
        &&& queue_contents(self.task_queue).len() <= queue_capacity(self.task_queue)
        &&& forall|task_id: u64| #[trigger]
            self.tasks@.contains_key(task_id) ==> {
                &&& self.tasks@[task_id].id == task_id
                &&& task_id < self.next_task_id
            }
        &&& forall|task_id: u64| #[trigger]
            self.waker_cache@.contains_key(task_id) ==> self.waker_cache@[task_id].task_id
                == task_id
    }

    /// An executor without tasks, with an empty ready queue of
    /// `MAX_NUMBER_TASKS` places.
    pub fn new() -> (executor: Self)
        ensures
            executor@ == ExecutorState::<C>::empty(),
    {
        Executor {
            tasks: BTreeMap::new(),
            task_queue: queue_new(MAX_NUMBER_TASKS),
            waker_cache: BTreeMap::new(),
            next_task_id: 0,
        }
    }

    /// States what holds of every executor: its state is well formed.
    pub fn validity(&self)
        ensures
            self@.wf(),
    {
        proof {
            use_type_invariant(self);
        }
    }

    /// The id that the next spawned task receives.
    pub fn next_task_id(&self) -> (next: u64)
        ensures
            next == self@.next_task_id,
    {
        self.next_task_id
    }

    /// Whether the task `task_id` waits in the parked set.
    pub fn is_parked(&self, task_id: u64) -> (parked: bool)
        ensures
            parked == self@.parked.contains_key(task_id),
    {
        self.tasks.contains_key(&task_id)
    }

    /// Whether a wake handle for `task_id` is kept.
    pub fn has_waker(&self, task_id: u64) -> (cached: bool)
        ensures
            cached == self@.wakers.contains_key(task_id),
    {
        self.waker_cache.contains_key(&task_id)
    }

    /// The number of ids in the ready queue.
    pub fn ready_len(&self) -> (len: usize)
        ensures
            len == self@.ready.len(),
    {
        queue_len(&self.task_queue)
    }

    /// Whether nothing is ready, so that the core may halt until an
    /// interrupt arrives.
    pub fn is_idle(&self) -> (idle: bool)
        ensures
            idle == (self@.ready.len() == 0),
    {
        queue_is_empty(&self.task_queue)
    }

    /// Whether the ready queue can take one more id.
    pub fn has_room(&self) -> (room: bool)
        ensures
            room == self@.has_room(),
    {
        proof {
            use_type_invariant(self);
        }
        queue_len(&self.task_queue) < MAX_NUMBER_TASKS
    }

    /// Registers a new task for one call of a reducer and makes it ready.
    /// Returns the id that the task was given.
    pub fn spawn(
        &mut self,
        module_id: u64,
        reducer_id: u64,
        access_level: AccessLevel,
        computation: C,
    ) -> (task_id: u64)
        requires
            old(self)@.can_spawn(),
        ensures
            task_id == old(self)@.fresh_task_id(),
            final(self)@ == old(self)@.spawn(module_id, reducer_id, access_level, computation),
    {
        proof {
            use_type_invariant(&*self);
        }
        let task_id = self.next_task_id;
        let task = Task::new(task_id, module_id, reducer_id, access_level, computation);
        let _ = queue_push(&mut self.task_queue, task_id);
        let mut tasks = BTreeMap::new();
        std::mem::swap(&mut tasks, &mut self.tasks);
        self.next_task_id = task_id + 1;
        tasks.insert(task_id, task);
        self.tasks = tasks;
        task_id
    }

    /// As `spawn`, where it can be done; else the computation is handed back
    /// and nothing changes.
    pub fn try_spawn(
        &mut self,
        module_id: u64,
        reducer_id: u64,
        access_level: AccessLevel,
        computation: C,
    ) -> (spawned: Result<u64, C>)
        ensures
            match spawned {
                Ok(task_id) => {
                    &&& old(self)@.can_spawn()
                    &&& task_id == old(self)@.fresh_task_id()
                    &&& final(self)@ == old(self)@.spawn(module_id, reducer_id, access_level, computation)
                },
                Err(returned) => {
                    &&& !old(self)@.can_spawn()
                    &&& returned == computation
                    &&& final(self)@ == old(self)@
                },
            },
    {
        if self.has_room() && self.next_task_id < u64::MAX {
            Ok(self.spawn(module_id, reducer_id, access_level, computation))
        } else {
            Err(computation)
        }
    }

    /// Puts `task_id` at the back of the ready queue.
    pub fn wake(&mut self, task_id: u64)
        requires
            old(self)@.has_room(),
        ensures
            final(self)@ == old(self)@.wake(task_id),
    {
        proof {
            use_type_invariant(&*self);
        }
        let _ = queue_push(&mut self.task_queue, task_id);
    }

    /// As `wake`, where the queue has room; a full queue hands the id back
    /// and nothing changes.
    pub fn try_wake(&mut self, task_id: u64) -> (woken: Result<(), u64>)
        ensures
            match woken {
                Ok(_) => old(self)@.has_room() && final(self)@ == old(self)@.wake(task_id),
                Err(returned) => {
                    &&& !old(self)@.has_room()
                    &&& returned == task_id
                    &&& final(self)@ == old(self)@
                },
            },
    {
        if self.has_room() {
            self.wake(task_id);
            Ok(())
        } else {
            Err(task_id)
        }
    }

    /// Takes the id that has been ready for longest off the queue.
    pub fn pop_ready(&mut self) -> (task_id: Option<u64>)
        ensures
            task_id == old(self)@.front(),
            final(self)@ == old(self)@.pop(),
    {
        proof {
            use_type_invariant(&*self);
        }
        queue_pop(&mut self.task_queue)
    }

    /// Takes the task `task_id` out of the parked set to resume it, with the
    /// wake handle bound to its id. An id that is not parked, because its
    /// task has completed or the wake was a duplicate, gives nothing.
    pub fn take_task(&mut self, task_id: u64) -> (taken: Option<(Task<C>, TaskWaker)>)
        ensures
            taken == old(self)@.task_to_run(task_id),
            final(self)@ == old(self)@.take_task(task_id),
    {
        proof {
            use_type_invariant(&*self);
        }
        let mut tasks = BTreeMap::new();
        std::mem::swap(&mut tasks, &mut self.tasks);
        let taken = tasks.remove(&task_id);
        self.tasks = tasks;
        match taken {
            None => None,
            Some(task) => {
                let mut cache = BTreeMap::new();
                std::mem::swap(&mut cache, &mut self.waker_cache);
                let cached = match cache.get(&task_id) {
                    Some(waker) => Some(*waker),
                    None => None,
                };
                let waker = match cached {
                    Some(waker) => waker,
                    None => {
                        let waker = TaskWaker::new(task_id);
                        cache.insert(task_id, waker);
                        waker
                    },
                };
                self.waker_cache = cache;
                assert(self@.wakers =~= old(self)@.take_task(task_id).wakers);
                Some((task, waker))
            },
        }
    }

    /// Takes back a task that was resumed: drops it and its wake handle if
    /// it completed, parks it again if it suspended.
    pub fn settle(&mut self, task: Task<C>, step: Step)
        requires
            old(self)@.can_settle(task, step),
        ensures
            final(self)@ == old(self)@.settle(task, step),
    {
        proof {
            use_type_invariant(&*self);
        }
        match step {
            Step::Complete => {
                let mut cache = BTreeMap::new();
                std::mem::swap(&mut cache, &mut self.waker_cache);
                cache.remove(&task.id);
                self.waker_cache = cache;
            },
            Step::Suspended => {
                let mut tasks = BTreeMap::new();
                std::mem::swap(&mut tasks, &mut self.tasks);
                tasks.insert(task.id, task);
                self.tasks = tasks;
            },
        }
    }

    /// As `settle`, where the task can be taken back; else the task is
    /// handed back and nothing changes.
    pub fn try_settle(&mut self, task: Task<C>, step: Step) -> (settled: Result<(), Task<C>>)
        ensures
            match settled {
                Ok(_) => {
                    &&& old(self)@.can_settle(task, step)
                    &&& final(self)@ == old(self)@.settle(task, step)
                },
                Err(returned) => {
                    &&& !old(self)@.can_settle(task, step)
                    &&& returned == task
                    &&& final(self)@ == old(self)@
                },
            },
    {
        let refused = match step {
            Step::Complete => false,
            Step::Suspended => self.tasks.contains_key(&task.id) || task.id >= self.next_task_id,
        };
        if refused {
            Err(task)
        } else {
            self.settle(task, step);
            Ok(())
        }
    }
}

} // verus!
