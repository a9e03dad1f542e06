use std::cell::RefCell;
use std::rc::Rc;

use spacetime_os::module::AccessLevel;
use spacetime_os::reducer::{BoxedJob, ReducerContext, ReducerJob};
use spacetime_os::spacetime_core::{Fault, ReducerScope, Scheduler};
use spacetime_os::task::executor::{Executor, MAX_NUMBER_TASKS};
use spacetime_os::task::{Computation, Step, Task, TaskWaker};
use spacetime_os::table::Row;

#[derive(Clone, Debug, PartialEq)]
struct Record {
    kind: u64,
    x: i64,
}

impl Row for Record {
    fn row_type(&self) -> u64 {
        self.kind
    }
}

fn record(x: i64) -> Record {
    Record { kind: 0, x }
}

type Log = Rc<RefCell<Vec<u64>>>;

type Answers = Rc<RefCell<Vec<Result<String, &'static str>>>>;

/// A computation that ends its steps as its script says, and completes
/// once the script is used up.
struct Script {
    ctx: ReducerContext,
    steps: Vec<Step>,
    rewake: bool,
    call: Option<(u64, u64)>,
    ask: Option<u64>,
    write: Option<(u64, u64)>,
    answers: Answers,
    log: Log,
}

impl Computation<Record, BoxedJob<Script>> for Script {
    fn resume(
        &mut self,
        scope: &mut ReducerScope<Record, Script, BoxedJob<Script>>,
        waker: &TaskWaker,
    ) -> Step {
        assert_eq!(scope.ctx().module_id, self.ctx.module_id);
        assert_eq!(scope.ctx().reducer_id, self.ctx.reducer_id);
        assert_eq!(scope.ctx().access_level, self.ctx.access_level);
        self.log.borrow_mut().push(waker.task_id);
        if self.rewake {
            scope.try_wake(waker).unwrap();
        }
        if let Some((module_id, reducer_id)) = self.call.take() {
            assert!(scope.try_call_reducer(module_id, reducer_id));
        }
        if let Some(module_id) = self.ask.take() {
            let answer = scope.get_module_infos(module_id).map(|infos| infos.name);
            self.answers.borrow_mut().push(answer);
        }
        if let Some((module_id, table_id)) = self.write.take() {
            let written = scope
                .insert_table_row(module_id, table_id, record(7))
                .map(|row_id| row_id.to_string());
            self.answers.borrow_mut().push(written);
            let read = scope.get_table_row(module_id, table_id, 0).map(|row| row.x.to_string());
            self.answers.borrow_mut().push(read);
            let ids = scope.get_modules_id().map(|ids| ids.len().to_string());
            self.answers.borrow_mut().push(ids);
        }
        if self.steps.is_empty() {
            Step::Complete
        } else {
            self.steps.remove(0)
        }
    }
}

struct Start {
    steps: Vec<Step>,
    rewake: bool,
    call: Option<(u64, u64)>,
    ask: Option<u64>,
    write: Option<(u64, u64)>,
    answers: Answers,
    log: Log,
    contexts: Rc<RefCell<Vec<ReducerContext>>>,
}

impl Start {
    fn new(steps: Vec<Step>, rewake: bool, log: &Log) -> Start {
        Start {
            steps,
            rewake,
            call: None,
            ask: None,
            write: None,
            answers: Rc::new(RefCell::new(Vec::new())),
            log: log.clone(),
            contexts: Rc::new(RefCell::new(Vec::new())),
        }
    }

    fn boxed(self) -> BoxedJob<Script> {
        BoxedJob { job: Box::new(self) }
    }
}

impl ReducerJob<Script> for Start {
    fn start(&self, ctx: ReducerContext) -> Script {
        self.contexts.borrow_mut().push(ctx);
        Script {
            ctx,
            steps: self.steps.clone(),
            rewake: self.rewake,
            call: self.call,
            ask: self.ask,
            write: self.write,
            answers: self.answers.clone(),
            log: self.log.clone(),
        }
    }
}

fn job(steps: Vec<Step>, rewake: bool, log: &Log) -> BoxedJob<Script> {
    Start::new(steps, rewake, log).boxed()
}

fn new_log() -> Log {
    Rc::new(RefCell::new(Vec::new()))
}

#[test]
fn scenario_two_tasks_one_drain_pass() {
    let log = new_log();
    let mut core: Scheduler<Record, Script, BoxedJob<Script>> = Scheduler::new();
    let module_id = core.registry_mut().insert_module("A".to_string(), AccessLevel::Standard);
    let quick = core.registry_mut().insert_reducer(module_id, "quick".to_string(), job(vec![], false, &log)).unwrap();
    let slow = core
        .registry_mut()
        .insert_reducer(module_id, "slow".to_string(), job(vec![Step::Suspended], false, &log))
        .unwrap();
    core.registry_mut().call_reducer(module_id, quick);
    core.registry_mut().call_reducer(module_id, slow);
    assert!(core.registry().executor().is_parked(0));
    assert!(core.registry().executor().is_parked(1));
    assert_eq!(core.registry().executor().ready_len(), 2);

    assert!(core.run_ready_tasks(usize::MAX).is_ok());
    assert_eq!(*log.borrow(), vec![0, 1]);
    assert!(!core.registry().executor().is_parked(0));
    assert!(!core.registry().executor().has_waker(0));
    assert!(core.registry().executor().is_parked(1));
    assert!(core.registry().executor().has_waker(1));
    assert!(core.registry().executor().is_idle());

    assert!(core.run_ready_tasks(usize::MAX).is_ok());
    assert_eq!(*log.borrow(), vec![0, 1]);
    assert!(core.registry().executor().is_parked(1));

    core.registry_mut().wake(&TaskWaker::new(1));
    assert_eq!(core.registry().executor().ready_len(), 1);
    assert!(core.run_ready_tasks(usize::MAX).is_ok());
    assert_eq!(*log.borrow(), vec![0, 1, 1]);
    assert!(!core.registry().executor().is_parked(1));
    assert!(!core.registry().executor().has_waker(1));
    assert!(core.registry().executor().is_idle());
}

#[test]
fn task_that_never_suspends_completes_within_one_pass() {
    let log = new_log();
    let mut core: Scheduler<Record, Script, BoxedJob<Script>> = Scheduler::new();
    let module_id = core.registry_mut().insert_module("A".to_string(), AccessLevel::Standard);
    let reducer_id = core.registry_mut().insert_reducer(module_id, "r".to_string(), job(vec![], false, &log)).unwrap();
    core.registry_mut().call_reducer(module_id, reducer_id);
    core.registry_mut().call_reducer(module_id, reducer_id);
    core.registry_mut().call_reducer(module_id, reducer_id);
    assert!(core.run_ready_tasks(usize::MAX).is_ok());
    assert_eq!(*log.borrow(), vec![0, 1, 2]);
    assert!(!core.registry().executor().is_parked(0));
    assert!(!core.registry().executor().is_parked(1));
    assert!(!core.registry().executor().is_parked(2));
    assert_eq!(core.registry().executor().next_task_id(), 3);
}

#[test]
fn task_that_wakes_itself_is_resumed_again_before_the_drain_ends() {
    let log = new_log();
    let mut core: Scheduler<Record, Script, BoxedJob<Script>> = Scheduler::new();
    let module_id = core.registry_mut().insert_module("A".to_string(), AccessLevel::Standard);
    let busy = core
        .registry_mut()
        .insert_reducer(
            module_id,
            "busy".to_string(),
            job(vec![Step::Suspended, Step::Suspended, Step::Suspended], true, &log),
        )
        .unwrap();
    let quick = core.registry_mut().insert_reducer(module_id, "quick".to_string(), job(vec![], false, &log)).unwrap();
    core.registry_mut().call_reducer(module_id, busy);
    core.registry_mut().call_reducer(module_id, quick);

    assert!(core.run_ready_tasks(usize::MAX).is_ok());
    assert_eq!(*log.borrow(), vec![0, 1, 0, 0, 0]);
    assert!(!core.registry().executor().is_parked(0));
    assert!(!core.registry().executor().has_waker(0));
    assert!(core.registry().executor().is_idle());
}

#[test]
fn drain_stops_when_its_turns_are_used_up() {
    let log = new_log();
    let mut core: Scheduler<Record, Script, BoxedJob<Script>> = Scheduler::new();
    let module_id = core.registry_mut().insert_module("A".to_string(), AccessLevel::Standard);
    let busy = core
        .registry_mut()
        .insert_reducer(
            module_id,
            "busy".to_string(),
            job(vec![Step::Suspended, Step::Suspended, Step::Suspended], true, &log),
        )
        .unwrap();
    let quick = core.registry_mut().insert_reducer(module_id, "quick".to_string(), job(vec![], false, &log)).unwrap();
    core.registry_mut().call_reducer(module_id, busy);
    core.registry_mut().call_reducer(module_id, quick);

    assert!(matches!(core.run_ready_tasks(0), Err(Fault::TurnsUsedUp)));
    assert!(log.borrow().is_empty());
    assert!(matches!(core.run_ready_tasks(3), Err(Fault::TurnsUsedUp)));
    assert_eq!(*log.borrow(), vec![0, 1, 0]);
    assert!(core.registry().executor().is_parked(0));
    assert!(!core.registry().executor().is_parked(1));
    assert_eq!(core.registry().executor().ready_len(), 1);
    assert!(core.run_ready_tasks(3).is_ok());
    assert_eq!(*log.borrow(), vec![0, 1, 0, 0, 0]);
    assert!(core.registry().executor().is_idle());
    assert!(core.run_ready_tasks(0).is_ok());
}

#[test]
fn call_reducer_on_deleted_reducer_creates_no_task() {
    let log = new_log();
    let mut core: Scheduler<Record, Script, BoxedJob<Script>> = Scheduler::new();
    let module_id = core.registry_mut().insert_module("A".to_string(), AccessLevel::Standard);
    let reducer_id = core.registry_mut().insert_reducer(module_id, "r".to_string(), job(vec![], false, &log)).unwrap();
    core.registry_mut().delete_reducer(module_id, reducer_id);
    core.registry_mut().call_reducer(module_id, reducer_id);
    assert!(core.registry_mut().try_call_reducer(module_id, reducer_id));
    assert!(core.registry().executor().is_idle());
    assert!(!core.registry().executor().is_parked(0));
    assert_eq!(core.registry().executor().next_task_id(), 0);
    assert!(core.run_ready_tasks(usize::MAX).is_ok());
    assert!(log.borrow().is_empty());
}

#[test]
fn call_reducer_on_unknown_or_deleted_module_creates_no_task() {
    let log = new_log();
    let mut core: Scheduler<Record, Script, BoxedJob<Script>> = Scheduler::new();
    core.registry_mut().call_reducer(4, 0);
    let module_id = core.registry_mut().insert_module("A".to_string(), AccessLevel::Standard);
    let reducer_id = core.registry_mut().insert_reducer(module_id, "r".to_string(), job(vec![], false, &log)).unwrap();
    core.registry_mut().call_reducer(module_id, reducer_id + 1);
    core.registry_mut().delete_module(module_id);
    core.registry_mut().call_reducer(module_id, reducer_id);
    assert!(core.registry().executor().is_idle());
    assert_eq!(core.registry().executor().next_task_id(), 0);
}

#[test]
fn job_is_handed_the_context_of_its_call() {
    let log = new_log();
    let contexts = Rc::new(RefCell::new(Vec::new()));
    let mut core: Scheduler<Record, Script, BoxedJob<Script>> = Scheduler::new();
    core.registry_mut().insert_module("first".to_string(), AccessLevel::Standard);
    let module_id = core.registry_mut().insert_module("Sys".to_string(), AccessLevel::Admin);
    core.registry_mut().insert_reducer(module_id, "r0".to_string(), job(vec![], false, &log)).unwrap();
    let reducer_id = core
        .registry_mut()
        .insert_reducer(
            module_id,
            "r1".to_string(),
            Start { contexts: contexts.clone(), ..Start::new(vec![], false, &log) }.boxed(),
        )
        .unwrap();
    core.registry_mut().call_reducer(module_id, reducer_id);
    let seen = contexts.borrow();
    assert_eq!(seen.len(), 1);
    assert_eq!(seen[0].module_id, 1);
    assert_eq!(seen[0].reducer_id, 1);
    assert_eq!(seen[0].access_level, AccessLevel::Admin);
}

#[test]
fn scenario_module_infos_asked_by_running_reducers() {
    let log = new_log();
    let answers: Answers = Rc::new(RefCell::new(Vec::new()));
    let mut core: Scheduler<Record, Script, BoxedJob<Script>> = Scheduler::new();
    let sys = core.registry_mut().insert_module("Sys".to_string(), AccessLevel::Admin);
    let a = core.registry_mut().insert_module("A".to_string(), AccessLevel::Standard);
    let ask_sys = core
        .registry_mut()
        .insert_reducer(
            a,
            "ask_sys".to_string(),
            Start { ask: Some(sys), answers: answers.clone(), ..Start::new(vec![], false, &log) }
                .boxed(),
        )
        .unwrap();
    let ask_a = core
        .registry_mut()
        .insert_reducer(
            sys,
            "ask_a".to_string(),
            Start { ask: Some(a), answers: answers.clone(), ..Start::new(vec![], false, &log) }
                .boxed(),
        )
        .unwrap();
    core.registry_mut().call_reducer(a, ask_sys);
    core.registry_mut().call_reducer(sys, ask_a);
    assert!(core.run_ready_tasks(usize::MAX).is_ok());
    assert_eq!(*answers.borrow(), vec![Err("You do not have access"), Ok("A".to_string())]);
}

#[test]
fn reducer_called_from_a_running_task_runs_in_the_same_drain() {
    let log = new_log();
    let mut core: Scheduler<Record, Script, BoxedJob<Script>> = Scheduler::new();
    let module_id = core.registry_mut().insert_module("A".to_string(), AccessLevel::Standard);
    let callee = core.registry_mut().insert_reducer(module_id, "callee".to_string(), job(vec![], false, &log)).unwrap();
    let caller = core
        .registry_mut()
        .insert_reducer(
            module_id,
            "caller".to_string(),
            Start { call: Some((module_id, callee)), ..Start::new(vec![], false, &log) }.boxed(),
        )
        .unwrap();
    let ctx = ReducerContext::new(module_id, caller, AccessLevel::Standard);
    ctx.call_reducer(core.registry_mut(), module_id, caller);
    assert!(matches!(core.run_ready_tasks(1), Err(Fault::TurnsUsedUp)));
    assert_eq!(*log.borrow(), vec![0]);
    assert!(core.registry().executor().is_parked(1));
    assert_eq!(core.registry().executor().ready_len(), 1);
    ctx.call_reducer(core.registry_mut(), module_id, caller);
    assert!(core.run_ready_tasks(usize::MAX).is_ok());
    assert_eq!(*log.borrow(), vec![0, 1, 2, 3]);
    assert!(core.registry().executor().is_idle());
}

#[test]
fn stale_ids_are_skipped() {
    let log = new_log();
    let mut core: Scheduler<Record, Script, BoxedJob<Script>> = Scheduler::new();
    core.registry_mut().wake(&TaskWaker::new(7));
    core.registry_mut().wake(&TaskWaker::new(7));
    assert_eq!(core.registry_mut().try_wake(&TaskWaker::new(3)), Ok(()));
    assert_eq!(core.registry().executor().ready_len(), 3);
    assert!(core.run_ready_tasks(usize::MAX).is_ok());
    assert!(core.registry().executor().is_idle());
    assert!(!core.registry().executor().has_waker(7));
    assert!(log.borrow().is_empty());
}

#[test]
fn duplicate_wake_of_a_completed_task_is_harmless() {
    let log = new_log();
    let mut core: Scheduler<Record, Script, BoxedJob<Script>> = Scheduler::new();
    let module_id = core.registry_mut().insert_module("A".to_string(), AccessLevel::Standard);
    let reducer_id = core.registry_mut().insert_reducer(module_id, "r".to_string(), job(vec![], false, &log)).unwrap();
    core.registry_mut().call_reducer(module_id, reducer_id);
    core.registry_mut().wake(&TaskWaker::new(0));
    assert!(core.run_ready_tasks(usize::MAX).is_ok());
    assert_eq!(*log.borrow(), vec![0]);
    assert!(core.registry().executor().is_idle());
}

#[test]
fn scenario_ready_queue_capacity() {
    let mut executor: Executor<u8> = Executor::new();
    assert_eq!(MAX_NUMBER_TASKS, 100);
    assert!(executor.is_idle());
    for i in 0..100u64 {
        assert!(executor.has_room());
        assert_eq!(executor.try_spawn(0, 0, AccessLevel::Standard, 1), Ok(i));
    }
    assert_eq!(executor.ready_len(), 100);
    assert!(!executor.has_room());
    assert_eq!(executor.try_spawn(0, 0, AccessLevel::Standard, 9), Err(9));
    assert_eq!(executor.try_wake(5), Err(5));
    assert_eq!(executor.ready_len(), 100);
    assert_eq!(executor.next_task_id(), 100);
    assert!(!executor.is_parked(100));
    assert_eq!(executor.pop_ready(), Some(0));
    assert!(executor.has_room());
    assert_eq!(executor.try_wake(5), Ok(()));
    assert_eq!(executor.try_wake(6), Err(6));
}

#[test]
fn registry_refuses_a_call_when_the_queue_is_full() {
    let log = new_log();
    let mut core: Scheduler<Record, Script, BoxedJob<Script>> = Scheduler::new();
    let module_id = core.registry_mut().insert_module("A".to_string(), AccessLevel::Standard);
    let reducer_id = core.registry_mut().insert_reducer(module_id, "r".to_string(), job(vec![], false, &log)).unwrap();
    for _ in 0..100 {
        assert!(core.registry_mut().try_call_reducer(module_id, reducer_id));
    }
    assert!(!core.registry_mut().try_call_reducer(module_id, reducer_id));
    assert!(core.registry_mut().try_call_reducer(module_id, reducer_id + 1));
    assert_eq!(core.registry_mut().try_wake(&TaskWaker::new(0)), Err(0));
    assert_eq!(core.registry().executor().next_task_id(), 100);
    assert!(core.run_ready_tasks(usize::MAX).is_ok());
    assert_eq!(log.borrow().len(), 100);
    assert!(core.registry().executor().is_idle());
}

#[test]
fn ready_queue_is_first_in_first_out() {
    let mut executor: Executor<u8> = Executor::new();
    assert_eq!(executor.pop_ready(), None);
    executor.wake(3);
    executor.wake(1);
    TaskWaker::new(2).wake_task(&mut executor);
    assert!(!executor.is_idle());
    assert_eq!(executor.ready_len(), 3);
    assert_eq!(executor.pop_ready(), Some(3));
    assert_eq!(executor.pop_ready(), Some(1));
    assert_eq!(executor.pop_ready(), Some(2));
    assert_eq!(executor.pop_ready(), None);
    assert!(executor.is_idle());
    assert_eq!(executor.ready_len(), 0);
}

#[test]
fn executor_steps_of_one_task() {
    let mut executor: Executor<u8> = Executor::new();
    assert_eq!(executor.spawn(4, 5, AccessLevel::Admin, 77), 0);
    assert!(executor.is_parked(0));
    assert!(!executor.has_waker(0));
    assert_eq!(executor.pop_ready(), Some(0));
    assert!(executor.take_task(9).is_none());
    let (task, waker) = executor.take_task(0).unwrap();
    assert_eq!(task.id, 0);
    assert_eq!(task.module_id, 4);
    assert_eq!(task.reducer_id, 5);
    assert_eq!(task.access_level, AccessLevel::Admin);
    assert_eq!(task.computation, 77);
    assert_eq!(waker, TaskWaker::new(0));
    assert!(!executor.is_parked(0));
    assert!(executor.has_waker(0));
    assert!(executor.take_task(0).is_none());

    executor.settle(task, Step::Suspended);
    assert!(executor.is_parked(0));
    assert!(executor.has_waker(0));
    assert!(executor.is_idle());

    let (task, waker) = executor.take_task(0).unwrap();
    assert_eq!(waker.task_id, 0);
    assert!(executor.try_settle(task, Step::Complete).is_ok());
    assert!(!executor.is_parked(0));
    assert!(!executor.has_waker(0));
}

#[test]
fn suspended_task_is_not_parked_over_a_live_one() {
    let mut executor: Executor<u8> = Executor::new();
    executor.spawn(0, 0, AccessLevel::Standard, 1);
    let twin = Task::new(0, 0, 0, AccessLevel::Standard, 2);
    let refused = executor.try_settle(twin, Step::Suspended).err().unwrap();
    assert_eq!(refused.id, 0);
    assert_eq!(refused.computation, 2);
    let (task, _) = executor.take_task(0).unwrap();
    assert_eq!(task.computation, 1);

    let stranger = Task::new(8, 0, 0, AccessLevel::Standard, 3);
    let refused = executor.try_settle(stranger, Step::Suspended).err().unwrap();
    assert_eq!(refused.id, 8);
    assert!(!executor.is_parked(8));
    assert!(executor.try_settle(Task::new(8, 0, 0, AccessLevel::Standard, 3), Step::Complete).is_ok());
}

#[test]
fn turns_of_a_pass_one_by_one() {
    let log = new_log();
    let mut core: Scheduler<Record, Script, BoxedJob<Script>> = Scheduler::new();
    let module_id = core.registry_mut().insert_module("A".to_string(), AccessLevel::Standard);
    let quick = core.registry_mut().insert_reducer(module_id, "quick".to_string(), job(vec![], false, &log)).unwrap();
    let slow = core
        .registry_mut()
        .insert_reducer(module_id, "slow".to_string(), job(vec![Step::Suspended], true, &log))
        .unwrap();
    assert_eq!(core.resume_next().ok(), Some(None));
    core.registry_mut().wake(&TaskWaker::new(7));
    core.registry_mut().call_reducer(module_id, quick);
    core.registry_mut().call_reducer(module_id, slow);
    assert_eq!(core.registry().executor().ready_len(), 3);
    assert_eq!(core.resume_next().ok(), Some(None));
    assert_eq!(core.registry().executor().ready_len(), 2);
    assert!(log.borrow().is_empty());
    assert_eq!(core.resume_next().ok(), Some(Some(Step::Complete)));
    assert_eq!(*log.borrow(), vec![0]);
    assert!(!core.registry().executor().is_parked(0));
    assert_eq!(core.resume_next().ok(), Some(Some(Step::Suspended)));
    assert_eq!(*log.borrow(), vec![0, 1]);
    assert!(core.registry().executor().is_parked(1));
    assert_eq!(core.registry().executor().ready_len(), 1);
    assert_eq!(core.resume_next().ok(), Some(Some(Step::Complete)));
    assert_eq!(*log.borrow(), vec![0, 1, 1]);
    assert!(!core.registry().executor().is_parked(1));
    assert!(!core.registry().executor().has_waker(1));
    assert_eq!(core.registry().executor().ready_len(), 1);
    assert_eq!(core.resume_next().ok(), Some(None));
    assert!(core.registry().executor().is_idle());
    assert_eq!(*log.borrow(), vec![0, 1, 1]);
}

#[test]
fn parked_task_that_is_not_ready_is_left_alone() {
    let log = new_log();
    let mut core: Scheduler<Record, Script, BoxedJob<Script>> = Scheduler::new();
    let module_id = core.registry_mut().insert_module("A".to_string(), AccessLevel::Standard);
    let slow = core
        .registry_mut()
        .insert_reducer(module_id, "slow".to_string(), job(vec![Step::Suspended], false, &log))
        .unwrap();
    let quick = core.registry_mut().insert_reducer(module_id, "quick".to_string(), job(vec![], false, &log)).unwrap();
    core.registry_mut().call_reducer(module_id, slow);
    assert!(core.run_ready_tasks(usize::MAX).is_ok());
    core.registry_mut().call_reducer(module_id, quick);
    core.registry_mut().call_reducer(module_id, quick);
    assert!(core.run_ready_tasks(usize::MAX).is_ok());
    assert_eq!(*log.borrow(), vec![0, 1, 2]);
    assert!(core.registry().executor().is_parked(0));
    assert!(core.registry().executor().has_waker(0));
    assert!(core.registry().executor().is_idle());
}

#[test]
fn stale_id_ahead_of_a_parked_task_is_skipped() {
    let log = new_log();
    let mut core: Scheduler<Record, Script, BoxedJob<Script>> = Scheduler::new();
    let module_id = core.registry_mut().insert_module("A".to_string(), AccessLevel::Standard);
    let quick = core.registry_mut().insert_reducer(module_id, "quick".to_string(), job(vec![], false, &log)).unwrap();
    core.registry_mut().wake(&TaskWaker::new(7));
    core.registry_mut().call_reducer(module_id, quick);
    assert!(core.run_ready_tasks(usize::MAX).is_ok());
    assert_eq!(*log.borrow(), vec![0]);
    assert!(!core.registry().executor().is_parked(0));
    assert!(core.registry().executor().is_idle());
}

#[test]
fn running_reducer_is_confined_to_its_module() {
    let log = new_log();
    let answers: Answers = Rc::new(RefCell::new(Vec::new()));
    let mut core: Scheduler<Record, Script, BoxedJob<Script>> = Scheduler::new();
    let sys = core.registry_mut().insert_module("Sys".to_string(), AccessLevel::Admin);
    let a = core.registry_mut().insert_module("A".to_string(), AccessLevel::Standard);
    let sys_table = core.registry_mut().insert_table(sys, "t".to_string(), 0).unwrap();
    let a_table = core.registry_mut().insert_table(a, "t".to_string(), 0).unwrap();
    core.registry_mut().insert_table_row(sys, sys_table, record(1)).unwrap();
    core.registry_mut().insert_table_row(a, a_table, record(2)).unwrap();
    let from_a = core
        .registry_mut()
        .insert_reducer(
            a,
            "write_sys".to_string(),
            Start {
                write: Some((sys, sys_table)),
                answers: answers.clone(),
                ..Start::new(vec![], false, &log)
            }
            .boxed(),
        )
        .unwrap();
    let from_sys = core
        .registry_mut()
        .insert_reducer(
            sys,
            "write_a".to_string(),
            Start {
                write: Some((a, a_table)),
                answers: answers.clone(),
                ..Start::new(vec![], false, &log)
            }
            .boxed(),
        )
        .unwrap();
    core.registry_mut().call_reducer(a, from_a);
    core.registry_mut().call_reducer(sys, from_sys);
    assert!(core.run_ready_tasks(usize::MAX).is_ok());
    let denied = Err("You do not have access");
    assert_eq!(
        *answers.borrow(),
        vec![
            denied.clone(),
            denied.clone(),
            denied,
            Ok("1".to_string()),
            Ok("2".to_string()),
            Ok("2".to_string()),
        ]
    );
    assert_eq!(core.registry().get_table_row(sys, sys_table, 1).err(), Some("Row not found"));
    assert_eq!(core.registry().get_table_row(a, a_table, 1), Ok(record(7)));
}

