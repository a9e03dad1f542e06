//! The registry: the modules of one session and the executor that runs
//! their reducers' tasks. Every change to a module, a reducer or a table
//! goes through it, and it alone starts tasks.
//!
//! The host holds the registry in a `Scheduler`, which takes the turns in
//! which tasks run. A running task holds it as a `ReducerScope`, bound to
//! the context of its reducer's call.

use std::collections::BTreeMap;
use vstd::prelude::*;

use crate::keys::{lists_ids, map_keys};
use crate::reducer::access_denied;
use crate::module::{
    describes_module, is_copy_of_row, row_not_found, AccessLevel, Module, ModuleInfos,
    ModuleState,
};
use crate::table::{observes, wrong_type, Row};
use crate::reducer::{is_started_by, ReducerContext, ReducerJob};
use crate::task::executor::{Executor, ExecutorState};
use crate::task::schedule::{lemma_turns_of_prefix, Resumption};
use crate::task::{Computation, Step, Task, TaskWaker};

verus! {

/// The error of an operation on a module that does not exist.
pub open spec fn module_not_found() -> &'static str {
    "Module not found"
}

/// What the registry is, as a mathematical value.
#[verifier::ext_equal]
pub struct CoreState<R, C, J> {
    pub modules: Map<u64, ModuleState<R, J>>,
    pub next_module_id: nat,
    pub executor: ExecutorState<C>,
}

impl<R, C, J> CoreState<R, C, J> {
    /// Every module sits below the counter, carries the id it is stored
    /// under and is well formed; so is the executor.
    pub open spec fn wf(self) -> bool {
        &&& self.next_module_id <= u64::MAX
        &&& self.executor.wf()
        &&& forall|module_id: u64| #[trigger]
            self.modules.contains_key(module_id) ==> {
                &&& module_id < self.next_module_id
                &&& self.modules[module_id].id == module_id
                &&& self.modules[module_id].wf()
            }
    }

    pub open spec fn empty() -> Self {
        CoreState { modules: Map::empty(), next_module_id: 0, executor: ExecutorState::empty() }
    }

    pub open spec fn fresh_module_id(self) -> u64 {
        self.next_module_id as u64
    }

    pub open spec fn has_module_room(self) -> bool {
        self.next_module_id < u64::MAX
    }

    pub open spec fn insert_module(self, name: Seq<char>, access_level: AccessLevel) -> Self {
        CoreState {
            modules: self.modules.insert(
                self.fresh_module_id(),
                ModuleState::empty(self.fresh_module_id(), name, access_level),
            ),
            next_module_id: self.next_module_id + 1,
            ..self
        }
    }

    pub open spec fn delete_module(self, module_id: u64) -> Self {
        CoreState { modules: self.modules.remove(module_id), ..self }
    }

    /// The state in which the module `module_id`, if there is one, has
    /// become `module`.
    pub open spec fn with_module(self, module_id: u64, module: ModuleState<R, J>) -> Self {
        if self.modules.contains_key(module_id) {
            CoreState { modules: self.modules.insert(module_id, module), ..self }
        } else {
            self
        }
    }

    /// Whether the module `module_id`, if there is one, can take one more
    /// reducer.
    pub open spec fn has_reducer_room(self, module_id: u64) -> bool {
        self.modules.contains_key(module_id) ==> self.modules[module_id].has_reducer_room()
    }

    pub open spec fn insert_reducer_result(self, module_id: u64) -> Result<u64, &'static str> {
        if self.modules.contains_key(module_id) {
            Ok(self.modules[module_id].fresh_reducer_id())
        } else {
            Err(module_not_found())
        }
    }

    pub open spec fn insert_reducer(
        self,
        module_id: u64,
        name: String,
        job: J,
    ) -> Self {
        self.with_module(module_id, self.modules[module_id].insert_reducer(name, job))
    }

    pub open spec fn delete_reducer(self, module_id: u64, reducer_id: u64) -> Self {
        self.with_module(module_id, self.modules[module_id].delete_reducer(reducer_id))
    }

    /// Whether the module `module_id`, if there is one, can take one more
    /// table.
    pub open spec fn has_table_room(self, module_id: u64) -> bool {
        self.modules.contains_key(module_id) ==> self.modules[module_id].has_table_room()
    }

    pub open spec fn insert_table_result(self, module_id: u64) -> Result<u64, &'static str> {
        if self.modules.contains_key(module_id) {
            Ok(self.modules[module_id].fresh_table_id())
        } else {
            Err(module_not_found())
        }
    }

    pub open spec fn insert_table(self, module_id: u64, name: Seq<char>, row_type: u64) -> Self {
        self.with_module(module_id, self.modules[module_id].insert_table(name, row_type))
    }

    pub open spec fn delete_table(self, module_id: u64, table_id: u64) -> Self {
        self.with_module(module_id, self.modules[module_id].delete_table(table_id))
    }

    /// Whether the table at (`module_id`, `table_id`), if there is one, can
    /// take one more row.
    pub open spec fn has_row_room(self, module_id: u64, table_id: u64) -> bool {
        self.modules.contains_key(module_id) ==> self.modules[module_id].has_row_room(table_id)
    }

    /// Whether the table at (`module_id`, `table_id`) exists.
    pub open spec fn has_table(self, module_id: u64, table_id: u64) -> bool {
        self.modules.contains_key(module_id) && self.modules[module_id].tables.contains_key(
            table_id,
        )
    }

    /// What handing in a value of type `observed` for insertion into the
    /// table at (`module_id`, `table_id`) returns.
    pub open spec fn insert_table_row_result(
        self,
        module_id: u64,
        table_id: u64,
        observed: u64,
    ) -> Result<u64, &'static str> {
        if self.modules.contains_key(module_id) {
            self.modules[module_id].insert_table_row_result(table_id, observed)
        } else {
            Err(module_not_found())
        }
    }

    /// The registry after `content`, a value of type `observed`, was handed
    /// in for insertion into the table at (`module_id`, `table_id`).
    pub open spec fn insert_table_row(
        self,
        module_id: u64,
        table_id: u64,
        content: R,
        observed: u64,
    ) -> Self {
        self.with_module(
            module_id,
            self.modules[module_id].insert_table_row(table_id, content, observed),
        )
    }

    /// What handing in a value of type `observed` to replace the row at
    /// (`module_id`, `table_id`, `row_id`) returns.
    pub open spec fn update_table_row_result(
        self,
        module_id: u64,
        table_id: u64,
        row_id: u64,
        observed: u64,
    ) -> Result<R, &'static str> {
        if self.modules.contains_key(module_id) {
            self.modules[module_id].update_table_row_result(table_id, row_id, observed)
        } else {
            Err(module_not_found())
        }
    }

    /// The row stored at (`module_id`, `table_id`, `row_id`), or which of the
    /// three is unknown.
    pub open spec fn row(self, module_id: u64, table_id: u64, row_id: u64) -> Result<
        R,
        &'static str,
    > {
        if self.modules.contains_key(module_id) {
            self.modules[module_id].row(table_id, row_id)
        } else {
            Err(module_not_found())
        }
    }

    pub open spec fn delete_table_row(self, module_id: u64, table_id: u64, row_id: u64) -> Self {
        self.with_module(module_id, self.modules[module_id].delete_table_row(table_id, row_id))
    }

    /// The registry after `content`, a value of type `observed`, was handed
    /// in to replace the row at (`module_id`, `table_id`, `row_id`).
    pub open spec fn update_table_row(
        self,
        module_id: u64,
        table_id: u64,
        row_id: u64,
        content: R,
        observed: u64,
    ) -> Self {
        self.with_module(
            module_id,
            self.modules[module_id].update_table_row(table_id, row_id, content, observed),
        )
    }

    /// Whether the reducer `reducer_id` of the module `module_id` exists.
    pub open spec fn has_reducer(self, module_id: u64, reducer_id: u64) -> bool {
        self.modules.contains_key(module_id) && self.modules[module_id].reducers.contains_key(
            reducer_id,
        )
    }

    /// The context that a call of the reducer starts its job with: the two
    /// ids, and the access level of the module that owns the reducer,
    /// whoever asks for the call.
    pub open spec fn context_for(self, module_id: u64, reducer_id: u64) -> ReducerContext {
        ReducerContext {
            access_level: self.modules[module_id].access_level,
            reducer_id,
            module_id,
        }
    }

    /// The context that a call of the reducer starts its job with, if there
    /// is such a reducer.
    pub open spec fn reducer_context(self, module_id: u64, reducer_id: u64) -> Option<
        ReducerContext,
    > {
        if self.has_reducer(module_id, reducer_id) {
            Some(self.context_for(module_id, reducer_id))
        } else {
            None
        }
    }

    /// Whether a call of the reducer can be carried out: a reducer that
    /// exists needs the executor to take one more task.
    pub open spec fn can_call_reducer(self, module_id: u64, reducer_id: u64) -> bool {
        self.has_reducer(module_id, reducer_id) ==> self.executor.can_spawn()
    }

    /// The state in which a task for `computation` has been started.
    pub open spec fn start_task(self, module_id: u64, reducer_id: u64, computation: C) -> Self {
        CoreState {
            executor: self.executor.spawn(
                module_id,
                reducer_id,
                self.modules[module_id].access_level,
                computation,
            ),
            ..self
        }
    }

    pub open spec fn wake(self, task_id: u64) -> Self {
        CoreState { executor: self.executor.wake(task_id), ..self }
    }

    /// Whether no id in the ready queue belongs to a parked task.
    pub open spec fn all_ready_stale(self) -> bool {
        forall|i: int|
            0 <= i < self.executor.ready.len() ==> !self.executor.parked.contains_key(
                #[trigger] self.executor.ready[i],
            )
    }

    /// The state in which the ready queue has been emptied.
    pub open spec fn drained(self) -> Self {
        CoreState { executor: ExecutorState { ready: Seq::empty(), ..self.executor }, ..self }
    }

    /// The state in which the oldest ready id has left the queue.
    pub open spec fn popped(self) -> Self {
        CoreState { executor: self.executor.pop(), ..self }
    }

    /// The state in which the oldest ready id `task_id` has left the queue
    /// and its task has left the parked set to be resumed: the registry as
    /// a resumed step finds it.
    pub open spec fn taken(self, task_id: u64) -> Self {
        CoreState { executor: self.executor.pop().take_task(task_id), ..self }
    }

    /// The state in which a resumed task has been taken back.
    pub open spec fn settled(self, task: Task<C>, step: Step) -> Self {
        CoreState { executor: self.executor.settle(task, step), ..self }
    }
}

impl<R, C, J: ReducerJob<C>> CoreState<R, C, J> {
    /// Whether one call of a reducer may lead from `self` to `next`: an
    /// unknown reducer changes nothing; a known one starts one task, for
    /// the computation that the reducer's job starts when it is handed the
    /// context of the call.
    pub open spec fn reducer_called(self, module_id: u64, reducer_id: u64, next: Self) -> bool {
        if self.has_reducer(module_id, reducer_id) {
            exists|computation: C| #[trigger]
                is_started_by(
                    computation,
                    self.modules[module_id].reducers[reducer_id].job,
                    self.context_for(module_id, reducer_id),
                ) && next == self.start_task(module_id, reducer_id, computation)
        } else {
            next == self
        }
    }
}

/// A row that was inserted is found at the id it was given, and so is what
/// a delete at that id returns.
pub proof fn lemma_inserted_row_is_found<R, C, J>(
    core: CoreState<R, C, J>,
    module_id: u64,
    table_id: u64,
    content: R,
    observed: u64,
)
    requires
        core.insert_table_row_result(module_id, table_id, observed) is Ok,
    ensures
        core.insert_table_row(module_id, table_id, content, observed).row(
            module_id,
            table_id,
            core.insert_table_row_result(module_id, table_id, observed)->Ok_0,
        ) == Ok::<R, &'static str>(content),
{
}

/// A value of another type than a table's rows is turned away, and the
/// registry is left as it was.
pub proof fn lemma_wrong_type_changes_nothing<R, C, J>(
    core: CoreState<R, C, J>,
    module_id: u64,
    table_id: u64,
    row_id: u64,
    content: R,
    observed: u64,
)
    requires
        core.has_table(module_id, table_id),
        observed != core.modules[module_id].tables[table_id].row_type,
    ensures
        core.insert_table_row_result(module_id, table_id, observed) == Err::<u64, &'static str>(
            wrong_type(),
        ),
        core.update_table_row_result(module_id, table_id, row_id, observed) == Err::<
            R,
            &'static str,
        >(wrong_type()),
        core.insert_table_row(module_id, table_id, content, observed) == core,
        core.update_table_row(module_id, table_id, row_id, content, observed) == core,
{
    assert(core.modules[module_id].insert_table_row(table_id, content, observed).tables
        =~= core.modules[module_id].tables);
    assert(core.modules[module_id].update_table_row(table_id, row_id, content, observed).tables
        =~= core.modules[module_id].tables);
    assert(core.insert_table_row(module_id, table_id, content, observed).modules
        =~= core.modules);
    assert(core.update_table_row(module_id, table_id, row_id, content, observed).modules
        =~= core.modules);
}

/// A row that was updated is found in its new form, and so is what a
/// delete at that id returns: the value most recently stored.
pub proof fn lemma_updated_row_is_found<R, C, J>(
    core: CoreState<R, C, J>,
    module_id: u64,
    table_id: u64,
    row_id: u64,
    content: R,
    observed: u64,
)
    requires
        core.update_table_row_result(module_id, table_id, row_id, observed) is Ok,
    ensures
        core.update_table_row(module_id, table_id, row_id, content, observed).row(
            module_id,
            table_id,
            row_id,
        ) == Ok::<R, &'static str>(content),
{
}

/// A row can be deleted once: a second delete at the same id finds no row
/// and changes nothing.
pub proof fn lemma_delete_table_row_twice<R, C, J>(
    core: CoreState<R, C, J>,
    module_id: u64,
    table_id: u64,
    row_id: u64,
)
    requires
        core.row(module_id, table_id, row_id) is Ok,
    ensures
        ({
            let once = core.delete_table_row(module_id, table_id, row_id);
            &&& once.row(module_id, table_id, row_id) == Err::<R, &'static str>(row_not_found())
            &&& once.delete_table_row(module_id, table_id, row_id) == once
        }),
{
    let once = core.delete_table_row(module_id, table_id, row_id);
    let module = once.modules[module_id];
    let table = module.tables[table_id];
    assert(table.delete_row(row_id).rows =~= table.rows);
    assert(module.delete_table_row(table_id, row_id).tables =~= module.tables);
    assert(once.delete_table_row(module_id, table_id, row_id).modules =~= once.modules);
}

/// A call of a reducer that was deleted starts no task and changes
/// nothing, and it can always be asked for.
pub proof fn lemma_call_of_deleted_reducer<R, C, J: ReducerJob<C>>(
    core: CoreState<R, C, J>,
    module_id: u64,
    reducer_id: u64,
    next: CoreState<R, C, J>,
)
    requires
        core.delete_reducer(module_id, reducer_id).reducer_called(module_id, reducer_id, next),
    ensures
        core.delete_reducer(module_id, reducer_id).can_call_reducer(module_id, reducer_id),
        next == core.delete_reducer(module_id, reducer_id),
{
}

/// A call of a reducer of a module that was deleted starts no task and
/// changes nothing.
pub proof fn lemma_call_into_deleted_module<R, C, J: ReducerJob<C>>(
    core: CoreState<R, C, J>,
    module_id: u64,
    reducer_id: u64,
    next: CoreState<R, C, J>,
)
    requires
        core.delete_module(module_id).reducer_called(module_id, reducer_id, next),
    ensures
        next == core.delete_module(module_id),
{
}

/// Calling a reducer and waking a task change the executor's tasks only by
/// adding a task under a fresh id; so a task that is being resumed never
/// finds its own id parked on account of them.
pub proof fn lemma_calls_and_wakes_only_add_tasks<R, C, J: ReducerJob<C>>(
    core: CoreState<R, C, J>,
    module_id: u64,
    reducer_id: u64,
    next: CoreState<R, C, J>,
    task_id: u64,
)
    requires
        core.wf(),
    ensures
        core.reducer_called(module_id, reducer_id, next) ==> next.executor.only_adds_tasks_to(
            core.executor,
        ),
        core.wake(task_id).executor.only_adds_tasks_to(core.executor),
{
}

/// Deleting a module a second time changes nothing.
pub proof fn lemma_delete_module_twice<R, C, J>(core: CoreState<R, C, J>, module_id: u64)
    ensures
        core.delete_module(module_id).delete_module(module_id) == core.delete_module(module_id),
{
    assert(core.delete_module(module_id).delete_module(module_id).modules =~= core.delete_module(
        module_id,
    ).modules);
}

/// The modules of a registry, addressed by id alone.
struct ModuleArena<R, J> {
    modules: BTreeMap<u64, Module<R, J>>,
    next_module_id: u64,
}

impl<R, J> ModuleArena<R, J> {
    #[verifier::type_invariant]
    spec fn inv(self) -> bool {
        forall|module_id: u64| #[trigger]
            self.modules@.contains_key(module_id) ==> {
                &&& module_id < self.next_module_id
                &&& self.modules@[module_id]@.id == module_id
                &&& self.modules@[module_id]@.wf()
            }
    }

}

impl<R: Row, J> ModuleArena<R, J> {
    closed spec fn modules(self) -> Map<u64, ModuleState<R, J>> {
        self.modules@.map_values(|module: Module<R, J>| module@)
    }

    closed spec fn next(self) -> nat {
        self.next_module_id as nat
    }

    fn new() -> (arena: Self)
        ensures
            arena.modules() == Map::<u64, ModuleState<R, J>>::empty(),
            arena.next() == 0,
    {
        let arena = ModuleArena { modules: BTreeMap::new(), next_module_id: 0 };
        assert(arena.modules() =~= Map::empty());
        arena
    }

    fn validity(&self)
        ensures
            self.next() <= u64::MAX,
            forall|module_id: u64| #[trigger]
                self.modules().contains_key(module_id) ==> {
                    &&& module_id < self.next()
                    &&& self.modules()[module_id].id == module_id
                    &&& self.modules()[module_id].wf()
                },
    {
        proof {
            use_type_invariant(self);
        }
    }

    fn next_module_id(&self) -> (next: u64)
        ensures
            next == self.next(),
    {
        self.next_module_id
    }

    fn insert(&mut self, name: String, access_level: AccessLevel) -> (module_id: u64)
        requires
            old(self).next() < u64::MAX,
        ensures
            module_id == old(self).next(),
            final(self).next() == old(self).next() + 1,
            final(self).modules() == old(self).modules().insert(
                module_id,
                ModuleState::empty(module_id, name@, access_level),
            ),
    {
        proof {
            use_type_invariant(&*self);
        }
        let module_id = self.next_module_id;
        let module = Module::new(module_id, name, access_level);
        module.validity();
        let mut modules = BTreeMap::new();
        std::mem::swap(&mut modules, &mut self.modules);
        self.next_module_id = module_id + 1;
        modules.insert(module_id, module);
        self.modules = modules;
        assert(self.modules() =~= old(self).modules().insert(
            module_id,
            ModuleState::empty(module_id, name@, access_level),
        ));
        module_id
    }

    fn remove(&mut self, module_id: u64)
        ensures
            final(self).next() == old(self).next(),
            final(self).modules() == old(self).modules().remove(module_id),
    {
        proof {
            use_type_invariant(&*self);
        }
        let mut modules = BTreeMap::new();
        std::mem::swap(&mut modules, &mut self.modules);
        modules.remove(&module_id);
        self.modules = modules;
        assert(self.modules() =~= old(self).modules().remove(module_id));
    }

    /// Takes the module `module_id` out, to be changed and put back.
    fn take(&mut self, module_id: u64) -> (module: Option<Module<R, J>>)
        ensures
            final(self).next() == old(self).next(),
            final(self).modules() == old(self).modules().remove(module_id),
            match module {
                Some(module) => {
                    &&& old(self).modules().contains_key(module_id)
                    &&& module@ == old(self).modules()[module_id]
                    &&& module@.id == module_id
                    &&& module_id < old(self).next()
                },
                None => !old(self).modules().contains_key(module_id),
            },
    {
        proof {
            use_type_invariant(&*self);
        }
        let mut modules = BTreeMap::new();
        std::mem::swap(&mut modules, &mut self.modules);
        let module = modules.remove(&module_id);
        self.modules = modules;
        assert(self.modules() =~= old(self).modules().remove(module_id));
        module
    }

    /// Puts back a module that was taken out.
    fn restore(&mut self, module: Module<R, J>)
        requires
            module@.id < old(self).next(),
        ensures
            final(self).next() == old(self).next(),
            final(self).modules() == old(self).modules().insert(module@.id, module@),
    {
        proof {
            use_type_invariant(&*self);
        }
        module.validity();
        let module_id = module.id();
        let mut modules = BTreeMap::new();
        std::mem::swap(&mut modules, &mut self.modules);
        modules.insert(module_id, module);
        self.modules = modules;
        assert(self.modules() =~= old(self).modules().insert(module@.id, module@));
    }

    fn ids(&self) -> (ids: Vec<u64>)
        ensures
            lists_ids(ids@, self.modules().dom()),
    {
        let ids = map_keys(&self.modules);
        assert(self.modules().dom() =~= self.modules@.dom());
        ids
    }

    fn get(&self, module_id: u64) -> (module: Option<&Module<R, J>>)
        ensures
            match module {
                Some(module) => {
                    &&& self.modules().contains_key(module_id)
                    &&& module@ == self.modules()[module_id]
                },
                None => !self.modules().contains_key(module_id),
            },
    {
        self.modules.get(&module_id)
    }
}

/// The registry of one session.
pub struct SpacetimeCore<R, C, J> {
    modules: ModuleArena<R, J>,
    executor: Executor<C>,
}

impl<R: Row, C, J> View for SpacetimeCore<R, C, J> {
    type V = CoreState<R, C, J>;

    closed spec fn view(&self) -> CoreState<R, C, J> {
        CoreState {
            modules: self.modules.modules(),
            next_module_id: self.modules.next(),
            executor: self.executor@,
        }
    }
}

impl<R: Row, C, J> SpacetimeCore<R, C, J> {
    /// A registry without modules, with an executor that has nothing to run.
    pub fn new() -> (core: Self)
        ensures
            core@ == CoreState::<R, C, J>::empty(),
    {
        SpacetimeCore { modules: ModuleArena::new(), executor: Executor::new() }
    }

    /// States what holds of every registry: its state is well formed.
    pub fn validity(&self)
        ensures
            self@.wf(),
    {
        self.modules.validity();
        self.executor.validity();
    }

    /// The executor, to look at.
    pub fn executor(&self) -> (executor: &Executor<C>)
        ensures
            executor@ == self@.executor,
    {
        &self.executor
    }

    /// The id that the next module receives.
    pub fn next_module_id(&self) -> (next: u64)
        ensures
            next == self@.next_module_id,
    {
        self.modules.next_module_id()
    }

    /// Whether the registry can take one more module.
    pub fn has_module_room(&self) -> (room: bool)
        ensures
            room == self@.has_module_room(),
    {
        self.modules.next_module_id() < u64::MAX
    }

    /// Whether the module `module_id`, if there is one, can take one more
    /// reducer.
    pub fn has_reducer_room(&self, module_id: u64) -> (room: bool)
        ensures
            room == self@.has_reducer_room(module_id),
    {
        match self.modules.get(module_id) {
            Some(module) => module.has_reducer_room(),
            None => true,
        }
    }

    /// Whether the module `module_id`, if there is one, can take one more
    /// table.
    pub fn has_table_room(&self, module_id: u64) -> (room: bool)
        ensures
            room == self@.has_table_room(module_id),
    {
        match self.modules.get(module_id) {
            Some(module) => module.has_table_room(),
            None => true,
        }
    }

    /// Whether the table at (`module_id`, `table_id`), if there is one, can
    /// take one more row.
    pub fn has_row_room(&self, module_id: u64, table_id: u64) -> (room: bool)
        ensures
            room == self@.has_row_room(module_id, table_id),
    {
        match self.modules.get(module_id) {
            Some(module) => module.has_row_room(table_id),
            None => true,
        }
    }

    /// Registers an empty module under a fresh id and returns that id.
    pub fn insert_module(&mut self, name: String, access_level: AccessLevel) -> (module_id: u64)
        requires
            old(self)@.has_module_room(),
        ensures
            module_id == old(self)@.fresh_module_id(),
            final(self)@ == old(self)@.insert_module(name@, access_level),
    {
        self.modules.insert(name, access_level)
    }

    /// Removes a module with all it owns; an unknown id changes nothing.
    pub fn delete_module(&mut self, module_id: u64)
        ensures
            final(self)@ == old(self)@.delete_module(module_id),
    {
        self.modules.remove(module_id)
    }

    /// Registers a reducer in the module `module_id` under a fresh id and
    /// returns that id.
    pub fn insert_reducer(&mut self, module_id: u64, name: String, job: J) -> (reducer_id:
        Result<u64, &'static str>)
        requires
            old(self)@.has_reducer_room(module_id),
        ensures
            reducer_id == old(self)@.insert_reducer_result(module_id),
            final(self)@ == old(self)@.insert_reducer(module_id, name, job),
    {
        match self.modules.take(module_id) {
            Some(mut module) => {
                let reducer_id = module.insert_reducer(name, job);
                self.modules.restore(module);
                assert(self@.modules =~= old(self)@.insert_reducer(module_id, name, job).modules);
                Ok(reducer_id)
            },
            None => {
                assert(self@.modules =~= old(self)@.modules);
                Err("Module not found")
            },
        }
    }

    /// Removes a reducer; an unknown module or reducer changes nothing.
    pub fn delete_reducer(&mut self, module_id: u64, reducer_id: u64)
        ensures
            final(self)@ == old(self)@.delete_reducer(module_id, reducer_id),
    {
        match self.modules.take(module_id) {
            Some(mut module) => {
                module.delete_reducer(reducer_id);
                self.modules.restore(module);
                assert(self@.modules =~= old(self)@.delete_reducer(module_id, reducer_id).modules);
            },
            None => {
                assert(self@.modules =~= old(self)@.modules);
            },
        }
    }

    /// Creates an empty table for rows of the type `row_type` in the module
    /// `module_id`, under a fresh id, and returns that id.
    pub fn insert_table(&mut self, module_id: u64, name: String, row_type: u64) -> (table_id:
        Result<u64, &'static str>)
        requires
            old(self)@.has_table_room(module_id),
        ensures
            table_id == old(self)@.insert_table_result(module_id),
            final(self)@ == old(self)@.insert_table(module_id, name@, row_type),
    {
        match self.modules.take(module_id) {
            Some(mut module) => {
                let table_id = module.insert_table(name, row_type);
                self.modules.restore(module);
                assert(self@.modules =~= old(self)@.insert_table(
                    module_id,
                    name@,
                    row_type,
                ).modules);
                Ok(table_id)
            },
            None => {
                assert(self@.modules =~= old(self)@.modules);
                Err("Module not found")
            },
        }
    }

    /// Removes a table with its rows; an unknown module or table changes
    /// nothing.
    pub fn delete_table(&mut self, module_id: u64, table_id: u64)
        ensures
            final(self)@ == old(self)@.delete_table(module_id, table_id),
    {
        match self.modules.take(module_id) {
            Some(mut module) => {
                module.delete_table(table_id);
                self.modules.restore(module);
                assert(self@.modules =~= old(self)@.delete_table(module_id, table_id).modules);
            },
            None => {
                assert(self@.modules =~= old(self)@.modules);
            },
        }
    }

    /// Stores `content` in the table at (`module_id`, `table_id`) under a
    /// fresh row id and returns that id, if `content` is of the type of
    /// that table's rows.
    pub fn insert_table_row(&mut self, module_id: u64, table_id: u64, content: R) -> (row_id:
        Result<u64, &'static str>)
        requires
            old(self)@.has_row_room(module_id, table_id),
        ensures
            exists|observed: u64| #[trigger]
                observes(observed, content, old(self)@.has_table(module_id, table_id)) && row_id
                    == old(self)@.insert_table_row_result(module_id, table_id, observed)
                    && final(self)@ == old(self)@.insert_table_row(
                    module_id,
                    table_id,
                    content,
                    observed,
                ),
    {
        match self.modules.take(module_id) {
            Some(mut module) => {
                let ghost before = module@;
                let row_id = module.insert_table_row(table_id, content);
                let ghost seen = choose|observed: u64| #[trigger]
                    observes(observed, content, before.tables.contains_key(table_id)) && row_id
                        == before.insert_table_row_result(table_id, observed) && module@
                        == before.insert_table_row(table_id, content, observed);
                self.modules.restore(module);
                assert(self@.modules =~= old(self)@.insert_table_row(
                    module_id,
                    table_id,
                    content,
                    seen,
                ).modules);
                assert(observes(seen, content, old(self)@.has_table(module_id, table_id)));
                row_id
            },
            None => {
                assert(self@.modules =~= old(self)@.modules);
                assert(observes(0, content, old(self)@.has_table(module_id, table_id)));
                Err("Module not found")
            },
        }
    }

    /// Removes the row at (`module_id`, `table_id`, `row_id`) and hands it
    /// to the caller.
    pub fn delete_table_row(&mut self, module_id: u64, table_id: u64, row_id: u64) -> (removed:
        Result<R, &'static str>)
        ensures
            removed == old(self)@.row(module_id, table_id, row_id),
            final(self)@ == old(self)@.delete_table_row(module_id, table_id, row_id),
    {
        match self.modules.take(module_id) {
            Some(mut module) => {
                let removed = module.delete_table_row(table_id, row_id);
                self.modules.restore(module);
                assert(self@.modules =~= old(self)@.delete_table_row(
                    module_id,
                    table_id,
                    row_id,
                ).modules);
                removed
            },
            None => {
                assert(self@.modules =~= old(self)@.modules);
                Err("Module not found")
            },
        }
    }

    /// Replaces the row at (`module_id`, `table_id`, `row_id`) by `content`
    /// and returns the row it replaced, if `content` is of the type of
    /// that table's rows.
    pub fn update_table_row(
        &mut self,
        module_id: u64,
        table_id: u64,
        row_id: u64,
        content: R,
    ) -> (previous: Result<R, &'static str>)
        ensures
            exists|observed: u64| #[trigger]
                observes(observed, content, old(self)@.has_table(module_id, table_id))
                    && previous == old(self)@.update_table_row_result(
                    module_id,
                    table_id,
                    row_id,
                    observed,
                ) && final(self)@ == old(self)@.update_table_row(
                    module_id,
                    table_id,
                    row_id,
                    content,
                    observed,
                ),
    {
        match self.modules.take(module_id) {
            Some(mut module) => {
                let ghost before = module@;
                let previous = module.update_table_row(table_id, row_id, content);
                let ghost seen = choose|observed: u64| #[trigger]
                    observes(observed, content, before.tables.contains_key(table_id))
                        && previous == before.update_table_row_result(table_id, row_id, observed)
                        && module@ == before.update_table_row(
                        table_id,
                        row_id,
                        content,
                        observed,
                    );
                self.modules.restore(module);
                assert(self@.modules =~= old(self)@.update_table_row(
                    module_id,
                    table_id,
                    row_id,
                    content,
                    seen,
                ).modules);
                assert(observes(seen, content, old(self)@.has_table(module_id, table_id)));
                previous
            },
            None => {
                assert(self@.modules =~= old(self)@.modules);
                assert(observes(0, content, old(self)@.has_table(module_id, table_id)));
                Err("Module not found")
            },
        }
    }

    /// Returns an independent copy of the row at (`module_id`, `table_id`,
    /// `row_id`).
    pub fn get_table_row(&self, module_id: u64, table_id: u64, row_id: u64) -> (copy: Result<
        R,
        &'static str,
    >) where R: Clone
        ensures
            is_copy_of_row(copy, self@.row(module_id, table_id, row_id)),
    {
        match self.modules.get(module_id) {
            Some(module) => module.get_table_row(table_id, row_id),
            None => Err("Module not found"),
        }
    }

    /// A descriptive snapshot of the module `module_id`.
    pub fn get_module_infos(&self, module_id: u64) -> (infos: Result<ModuleInfos, &'static str>)
        ensures
            match infos {
                Ok(infos) => {
                    &&& self@.modules.contains_key(module_id)
                    &&& describes_module(infos, self@.modules[module_id])
                },
                Err(error) => {
                    &&& !self@.modules.contains_key(module_id)
                    &&& error == module_not_found()
                },
            },
    {
        match self.modules.get(module_id) {
            Some(module) => Ok(module.get_infos()),
            None => Err("Module not found"),
        }
    }

    /// The ids of all modules, from the smallest up.
    pub fn get_modules_id(&self) -> (ids: Vec<u64>)
        ensures
            lists_ids(ids@, self@.modules.dom()),
    {
        self.modules.ids()
    }

    /// The context that a call of the reducer `reducer_id` of the module
    /// `module_id` starts its job with, if there is such a reducer.
    pub fn reducer_context(&self, module_id: u64, reducer_id: u64) -> (ctx: Option<
        ReducerContext,
    >)
        ensures
            ctx == self@.reducer_context(module_id, reducer_id),
    {
        match self.modules.get(module_id) {
            Some(module) => match module.get_reducer(reducer_id) {
                Some(_) => Some(ReducerContext::new(module_id, reducer_id, module.access_level())),
                None => None,
            },
            None => None,
        }
    }

}

impl<R: Row, C, J: ReducerJob<C>> SpacetimeCore<R, C, J> {
    /// Starts one task for the reducer `reducer_id` of the module
    /// `module_id`; an unknown module or reducer changes nothing. The
    /// reducer's job is started with the context that `reducer_context`
    /// gives for the two ids.
    pub fn call_reducer(&mut self, module_id: u64, reducer_id: u64)
        requires
            old(self)@.can_call_reducer(module_id, reducer_id),
        ensures
            old(self)@.reducer_called(module_id, reducer_id, final(self)@),
    {
        let started = match self.reducer_context(module_id, reducer_id) {
            Some(ctx) => match self.modules.get(module_id) {
                Some(module) => match module.get_reducer(reducer_id) {
                    Some(reducer) => {
                        let computation = reducer.job.start(ctx);
                        assert(is_started_by(computation, reducer.job, ctx));
                        Some((ctx.access_level, computation))
                    },
                    None => None,
                },
                None => None,
            },
            None => None,
        };
        match started {
            Some((access_level, computation)) => {
                self.executor.spawn(module_id, reducer_id, access_level, computation);
                assert(self@ == old(self)@.start_task(module_id, reducer_id, computation));
                assert(is_started_by(
                    computation,
                    old(self)@.modules[module_id].reducers[reducer_id].job,
                    old(self)@.context_for(module_id, reducer_id),
                ));
            },
            None => {},
        }
    }

    /// As `call_reducer`, where the call can be carried out; else `false`
    /// is returned, the reducer's job is not run and nothing changes.
    pub fn try_call_reducer(&mut self, module_id: u64, reducer_id: u64) -> (accepted: bool)
        ensures
            accepted == old(self)@.can_call_reducer(module_id, reducer_id),
            accepted ==> old(self)@.reducer_called(module_id, reducer_id, final(self)@),
            !accepted ==> final(self)@ == old(self)@,
    {
        let known = match self.modules.get(module_id) {
            Some(module) => module.get_reducer(reducer_id).is_some(),
            None => false,
        };
        if known && !(self.executor.has_room() && self.executor.next_task_id() < u64::MAX) {
            false
        } else {
            self.call_reducer(module_id, reducer_id);
            true
        }
    }
}

impl<R: Row, C, J> SpacetimeCore<R, C, J> {
    /// Makes the task of `waker` ready: its id goes to the back of the
    /// ready queue, whether or not the task still exists.
    pub fn wake(&mut self, waker: &TaskWaker)
        requires
            old(self)@.executor.has_room(),
        ensures
            final(self)@ == old(self)@.wake(waker.task_id),
    {
        waker.wake_task(&mut self.executor)
    }

    /// As `wake`, where the ready queue has room; a full queue hands the id
    /// back and nothing changes.
    pub fn try_wake(&mut self, waker: &TaskWaker) -> (woken: Result<(), u64>)
        ensures
            match woken {
                Ok(_) => {
                    &&& old(self)@.executor.has_room()
                    &&& final(self)@ == old(self)@.wake(waker.task_id)
                },
                Err(returned) => {
                    &&& !old(self)@.executor.has_room()
                    &&& returned == waker.task_id
                    &&& final(self)@ == old(self)@
                },
            },
    {
        if self.executor.has_room() {
            self.wake(waker);
            Ok(())
        } else {
            Err(waker.task_id)
        }
    }
}

/// What a running reducer holds of the registry: the registry and the
/// context of the reducer's call, both out of reach but through the
/// operations below, each of which is held to the access policy.
pub struct ReducerScope<R, C, J> {
    core: SpacetimeCore<R, C, J>,
    ctx: ReducerContext,
}

impl<R: Row, C, J> View for ReducerScope<R, C, J> {
    type V = CoreState<R, C, J>;

    closed spec fn view(&self) -> CoreState<R, C, J> {
        self.core@
    }
}

impl<R: Row, C, J> ReducerScope<R, C, J> {
    /// The context of the reducer's call.
    pub closed spec fn context(&self) -> ReducerContext {
        self.ctx
    }

    /// The context of the reducer's call.
    pub fn ctx(&self) -> (ctx: ReducerContext)
        ensures
            ctx == self.context(),
    {
        self.ctx
    }

    /// States what holds of every registry: its state is well formed.
    pub fn validity(&self)
        ensures
            self@.wf(),
    {
        self.core.validity()
    }

    /// Whether the registry can take one more module.
    pub fn has_module_room(&self) -> (room: bool)
        ensures
            room == self@.has_module_room(),
    {
        self.core.has_module_room()
    }

    /// Whether the module `module_id`, if there is one, can take one more
    /// reducer.
    pub fn has_reducer_room(&self, module_id: u64) -> (room: bool)
        ensures
            room == self@.has_reducer_room(module_id),
    {
        self.core.has_reducer_room(module_id)
    }

    /// Whether the module `module_id`, if there is one, can take one more
    /// table.
    pub fn has_table_room(&self, module_id: u64) -> (room: bool)
        ensures
            room == self@.has_table_room(module_id),
    {
        self.core.has_table_room(module_id)
    }

    /// Whether the table at (`module_id`, `table_id`), if there is one, can
    /// take one more row.
    pub fn has_row_room(&self, module_id: u64, table_id: u64) -> (room: bool)
        ensures
            room == self@.has_row_room(module_id, table_id),
    {
        self.core.has_row_room(module_id, table_id)
    }

    /// As `call_reducer`, where the call can be carried out; else `false`
    /// is returned, the reducer's job is not run and nothing changes.
    pub fn try_call_reducer(&mut self, module_id: u64, reducer_id: u64) -> (accepted: bool) where
        J: ReducerJob<C>,

        ensures
            final(self).context() == old(self).context(),
            accepted == old(self)@.can_call_reducer(module_id, reducer_id),
            accepted ==> old(self)@.reducer_called(module_id, reducer_id, final(self)@),
            !accepted ==> final(self)@ == old(self)@,
    {
        self.core.try_call_reducer(module_id, reducer_id)
    }

    /// Makes the task of `waker` ready: its id goes to the back of the
    /// ready queue, whether or not the task still exists.
    pub fn wake(&mut self, waker: &TaskWaker)
        requires
            old(self)@.executor.has_room(),
        ensures
            final(self).context() == old(self).context(),
            final(self)@ == old(self)@.wake(waker.task_id),
    {
        self.core.wake(waker)
    }

    /// As `wake`, where the ready queue has room; a full queue hands the id
    /// back and nothing changes.
    pub fn try_wake(&mut self, waker: &TaskWaker) -> (woken: Result<(), u64>)
        ensures
            final(self).context() == old(self).context(),
            match woken {
                Ok(_) => {
                    &&& old(self)@.executor.has_room()
                    &&& final(self)@ == old(self)@.wake(waker.task_id)
                },
                Err(returned) => {
                    &&& !old(self)@.executor.has_room()
                    &&& returned == waker.task_id
                    &&& final(self)@ == old(self)@
                },
            },
    {
        self.core.try_wake(waker)
    }

    /// The ids of all modules; for `Admin` contexts only.
    pub fn get_modules_id(&self) -> (ids: Result<
        Vec<u64>,
        &'static str,
    >)
        ensures
            match ids {
                Ok(ids) => self.context().is_admin() && lists_ids(ids@, self@.modules.dom()),
                Err(error) => !self.context().is_admin() && error == access_denied(),
            },
    {
        self.ctx.get_modules_id(&self.core)
    }

    /// A descriptive snapshot of the module `module_id`.
    pub fn get_module_infos(&self, module_id: u64) -> (infos:
        Result<ModuleInfos, &'static str>)
        ensures
            match infos {
                Ok(infos) => {
                    &&& self.context().may_access(module_id)
                    &&& self@.modules.contains_key(module_id)
                    &&& describes_module(infos, self@.modules[module_id])
                },
                Err(error) => if self.context().may_access(module_id) {
                    !self@.modules.contains_key(module_id) && error == module_not_found()
                } else {
                    error == access_denied()
                },
            },
    {
        self.ctx.get_module_infos(&self.core, module_id)
    }

    /// Calls a reducer of any module. Starting further work is open to
    /// every context; no access check is made.
    pub fn call_reducer(&mut self, module_id: u64, reducer_id: u64) where J: ReducerJob<C>
        requires
            old(self)@.can_call_reducer(module_id, reducer_id),
        ensures
            final(self).context() == old(self).context(),
            old(self)@.reducer_called(module_id, reducer_id, final(self)@),
    {
        self.ctx.call_reducer(&mut self.core, module_id, reducer_id)
    }

    /// Registers a new module; for `Admin` contexts only.
    pub fn insert_module(
        &mut self,
        name: String,
        access_level: AccessLevel,
    ) -> (inserted: Result<(), &'static str>)
        requires
            old(self).context().is_admin() ==> old(self)@.has_module_room(),
        ensures
            final(self).context() == old(self).context(),
            inserted == (if old(self).context().is_admin() {
                Ok(())
            } else {
                Err(access_denied())
            }),
            final(self)@ == (if old(self).context().is_admin() {
                old(self)@.insert_module(name@, access_level)
            } else {
                old(self)@
            }),
    {
        self.ctx.insert_module(&mut self.core, name, access_level)
    }

    /// Registers a reducer in a module that this context may access.
    pub fn insert_reducer(
        &mut self,
        module_id: u64,
        name: String,
        job: J,
    ) -> (reducer_id: Result<u64, &'static str>)
        requires
            old(self).context().may_access(module_id) ==> old(self)@.has_reducer_room(module_id),
        ensures
            final(self).context() == old(self).context(),
            reducer_id == (if old(self).context().may_access(module_id) {
                old(self)@.insert_reducer_result(module_id)
            } else {
                Err(access_denied())
            }),
            final(self)@ == (if old(self).context().may_access(module_id) {
                old(self)@.insert_reducer(module_id, name, job)
            } else {
                old(self)@
            }),
    {
        self.ctx.insert_reducer(&mut self.core, module_id, name, job)
    }

    /// Creates a table in a module that this context may access.
    pub fn insert_table(
        &mut self,
        module_id: u64,
        name: String,
        row_type: u64,
    ) -> (table_id: Result<u64, &'static str>)
        requires
            old(self).context().may_access(module_id) ==> old(self)@.has_table_room(module_id),
        ensures
            final(self).context() == old(self).context(),
            table_id == (if old(self).context().may_access(module_id) {
                old(self)@.insert_table_result(module_id)
            } else {
                Err(access_denied())
            }),
            final(self)@ == (if old(self).context().may_access(module_id) {
                old(self)@.insert_table(module_id, name@, row_type)
            } else {
                old(self)@
            }),
    {
        self.ctx.insert_table(&mut self.core, module_id, name, row_type)
    }

    /// Stores a row in a table of a module that this context may access.
    pub fn insert_table_row(
        &mut self,
        module_id: u64,
        table_id: u64,
        content: R,
    ) -> (row_id: Result<u64, &'static str>)
        requires
            old(self).context().may_access(module_id) ==> old(self)@.has_row_room(module_id, table_id),
        ensures
            final(self).context() == old(self).context(),
            exists|observed: u64| #[trigger]
                observes(
                    observed,
                    content,
                    old(self).context().reaches_table(old(self)@, module_id, table_id),
                ) && row_id == (if old(self).context().may_access(module_id) {
                    old(self)@.insert_table_row_result(module_id, table_id, observed)
                } else {
                    Err(access_denied())
                }) && final(self)@ == (if old(self).context().may_access(module_id) {
                    old(self)@.insert_table_row(module_id, table_id, content, observed)
                } else {
                    old(self)@
                }),
    {
        let row_id = self.ctx.insert_table_row(&mut self.core, module_id, table_id, content);
        let ghost seen = choose|observed: u64| #[trigger]
            observes(
                observed,
                content,
                old(self).ctx.reaches_table(old(self).core@, module_id, table_id),
            ) && row_id == (if old(self).ctx.may_access(module_id) {
                old(self).core@.insert_table_row_result(module_id, table_id, observed)
            } else {
                Err(access_denied())
            }) && self.core@ == (if old(self).ctx.may_access(module_id) {
                old(self).core@.insert_table_row(module_id, table_id, content, observed)
            } else {
                old(self).core@
            });
        assert(observes(
            seen,
            content,
            old(self).context().reaches_table(old(self)@, module_id, table_id),
        ));
        row_id
    }

    /// Removes a row from a table of a module that this context may access,
    /// and hands it to the caller.
    pub fn delete_table_row(
        &mut self,
        module_id: u64,
        table_id: u64,
        row_id: u64,
    ) -> (removed: Result<R, &'static str>)
        ensures
            final(self).context() == old(self).context(),
            removed == (if old(self).context().may_access(module_id) {
                old(self)@.row(module_id, table_id, row_id)
            } else {
                Err(access_denied())
            }),
            final(self)@ == (if old(self).context().may_access(module_id) {
                old(self)@.delete_table_row(module_id, table_id, row_id)
            } else {
                old(self)@
            }),
    {
        self.ctx.delete_table_row(&mut self.core, module_id, table_id, row_id)
    }

    /// Replaces a row in a table of a module that this context may access,
    /// and returns the row it replaced.
    pub fn update_table_row(
        &mut self,
        module_id: u64,
        table_id: u64,
        row_id: u64,
        content: R,
    ) -> (previous: Result<R, &'static str>)
        ensures
            final(self).context() == old(self).context(),
            exists|observed: u64| #[trigger]
                observes(
                    observed,
                    content,
                    old(self).context().reaches_table(old(self)@, module_id, table_id),
                ) && previous == (if old(self).context().may_access(module_id) {
                    old(self)@.update_table_row_result(module_id, table_id, row_id, observed)
                } else {
                    Err(access_denied())
                }) && final(self)@ == (if old(self).context().may_access(module_id) {
                    old(self)@.update_table_row(module_id, table_id, row_id, content, observed)
                } else {
                    old(self)@
                }),
    {
        let previous = self.ctx.update_table_row(
            &mut self.core,
            module_id,
            table_id,
            row_id,
            content,
        );
        let ghost seen = choose|observed: u64| #[trigger]
            observes(
                observed,
                content,
                old(self).ctx.reaches_table(old(self).core@, module_id, table_id),
            ) && previous == (if old(self).ctx.may_access(module_id) {
                old(self).core@.update_table_row_result(module_id, table_id, row_id, observed)
            } else {
                Err(access_denied())
            }) && self.core@ == (if old(self).ctx.may_access(module_id) {
                old(self).core@.update_table_row(module_id, table_id, row_id, content, observed)
            } else {
                old(self).core@
            });
        assert(observes(
            seen,
            content,
            old(self).context().reaches_table(old(self)@, module_id, table_id),
        ));
        previous
    }

    /// Returns an independent copy of a row in a table of a module that
    /// this context may access.
    pub fn get_table_row(
        &self,
        module_id: u64,
        table_id: u64,
        row_id: u64,
    ) -> (copy: Result<R, &'static str>) where R: Clone
        ensures
            is_copy_of_row(
                copy,
                if self.context().may_access(module_id) {
                    self@.row(module_id, table_id, row_id)
                } else {
                    Err(access_denied())
                },
            ),
    {
        self.ctx.get_table_row(&self.core, module_id, table_id, row_id)
    }
}

/// The host's hold on the registry: it reaches every operation of the
/// registry, and takes the turns in which the reducers' tasks run.
pub struct Scheduler<R, C, J> {
    scope: ReducerScope<R, C, J>,
}

impl<R: Row, C, J> View for Scheduler<R, C, J> {
    type V = CoreState<R, C, J>;

    closed spec fn view(&self) -> CoreState<R, C, J> {
        self.scope.core@
    }
}

impl<R: Row, C, J> Scheduler<R, C, J> {
    /// A registry without modules, with an executor that has nothing to run.
    pub fn new() -> (scheduler: Self)
        ensures
            scheduler@ == CoreState::<R, C, J>::empty(),
    {
        Scheduler {
            scope: ReducerScope {
                core: SpacetimeCore::new(),
                ctx: ReducerContext::new(0, 0, AccessLevel::Standard),
            },
        }
    }

    /// States what holds of every registry: its state is well formed.
    pub fn validity(&self)
        ensures
            self@.wf(),
    {
        self.scope.core.validity()
    }

    /// The registry, to look at.
    pub fn registry(&self) -> (core: &SpacetimeCore<R, C, J>)
        ensures
            core@ == self@,
    {
        &self.scope.core
    }

    /// The registry, for the host to act on.
    pub fn registry_mut(&mut self) -> (core: &mut SpacetimeCore<R, C, J>)
        ensures
            core@ == old(self)@,
            final(self)@ == final(core)@,
    {
        &mut self.scope.core
    }
}

/// Why draining the ready queue ended before the queue was empty.
pub enum Fault<C> {
    /// The turns allowed were all taken.
    TurnsUsedUp,
    /// A task suspended and cannot be parked again; here it is.
    Unparked(Task<C>),
}

/// How the step of a turn ended: as the turn reports it, and as a
/// suspension where the task came back because it could not be parked.
pub open spec fn step_of<C>(outcome: Result<Option<Step>, Task<C>>) -> Step {
    match outcome {
        Ok(Some(step)) => step,
        _ => Step::Suspended,
    }
}

/// A turn whose step left the executor alone, but perhaps for waking its
/// own task, is a turn as the scheduling laws speak of it.
proof fn lemma_turn_of_quiet_step<C>(
    before: ExecutorState<C>,
    resumed_in: ExecutorState<C>,
    after: ExecutorState<C>,
    task_id: u64,
    resumed: Task<C>,
    resumption: Resumption<C>,
)
    requires
        before.wf(),
        before.front() == Some(task_id),
        before.pop().parked.contains_key(task_id),
        resumed_in == before.pop().take_task(task_id) || resumed_in == before.pop().take_task(
            task_id,
        ).wake(task_id),
        resumed == (Task { computation: resumed.computation, ..before.parked[task_id] }),
        after == resumed_in.settle(resumed, resumption.step),
        after.ready.len() <= after.capacity,
        resumption.rewake == (after.ready.len() == before.ready.len()),
        resumption.step == Step::Suspended ==> resumption.computation == resumed.computation,
    ensures
        after == before.turn(resumption),
        before.pop().task_to_run(task_id) matches Some((task, waker)) && waker.task_id == task_id,
        resumed_in.can_settle(resumed, resumption.step),
{
    let taken = before.pop().take_task(task_id);
    assert(before.waker_for(task_id).task_id == task_id);
    if resumed_in == taken {
        assert(after.ready.len() == before.ready.len() - 1);
    } else {
        assert(after.ready.len() == before.ready.len());
        assert(taken.has_room());
    }
}

impl<R: Row, J, C: Computation<R, J>> Scheduler<R, C, J> {
    /// One turn: the id that has been ready for longest is taken off the
    /// queue. If its task is parked, the task is taken out and resumed one
    /// step, with the registry as it then is and the wake handle bound to
    /// its id; then it is dropped if it completed and parked again if it
    /// suspended. `Ok(None)` says that no task was resumed, because nothing
    /// was ready or the id was stale; `Ok(Some(step))` says how the resumed
    /// step ended.
    ///
    /// A task comes back as an error if it suspended and cannot be parked
    /// again, because its id is taken or is not one of this executor's;
    /// the registry is then left as the step left it.
    pub fn resume_next(&mut self) -> (outcome: Result<Option<Step>, Task<C>>)
        ensures
            match old(self)@.executor.front() {
                None => outcome matches Ok(None) && final(self)@ == old(self)@,
                Some(task_id) => match old(self)@.executor.pop().task_to_run(task_id) {
                    None => outcome matches Ok(None) && final(self)@ == old(self)@.popped(),
                    Some((task, waker)) => exists|
                        computation: &mut C,
                        registry: &mut ReducerScope<R, C, J>,
                    |
                        {
                            let resumed = Task { computation: mut_ref_future(computation), ..task };
                            &&& mut_ref_current(computation) == task.computation
                            &&& mut_ref_current(registry)@ == old(self)@.taken(task_id)
                            &&& mut_ref_current(registry).context() == task.context()
                            &&& #[trigger] call_ensures(
                                C::resume,
                                (computation, registry, &waker),
                                step_of(outcome),
                            )
                            &&& match outcome {
                                Ok(Some(step)) => {
                                    &&& mut_ref_future(registry)@.executor.can_settle(resumed, step)
                                    &&& final(self)@ == mut_ref_future(registry)@.settled(
                                        resumed,
                                        step,
                                    )
                                },
                                Ok(None) => false,
                                Err(returned) => {
                                    &&& returned == resumed
                                    &&& !mut_ref_future(registry)@.executor.can_settle(
                                        resumed,
                                        Step::Suspended,
                                    )
                                    &&& final(self)@ == mut_ref_future(registry)@
                                },
                            }
                        },
                },
            },
    {
        let task_id = match self.scope.core.executor.pop_ready() {
            Some(task_id) => task_id,
            None => {
                return Ok(None);
            },
        };
        match self.scope.core.executor.take_task(task_id) {
            None => Ok(None),
            Some((task, waker)) => {
                let mut task = task;
                self.scope.ctx = task.ctx();
                let step = task.poll(&mut self.scope, &waker);
                match self.scope.core.executor.try_settle(task, step) {
                    Ok(_) => Ok(Some(step)),
                    Err(task) => Err(task),
                }
            },
        }
    }

    /// Drains the ready queue: takes turns, as `resume_next` does, until
    /// the queue is empty. Ids that are made ready on the way have their
    /// turn in the same call. `Ok` says that the queue is empty.
    ///
    /// A task that wakes itself for ever keeps the queue from emptying, so
    /// at most `max_turns` turns are taken; where they are used up with ids
    /// still ready, `TurnsUsedUp` comes back and the caller may go on.
    ///
    /// A task comes back as `Unparked` if it suspended and cannot be parked
    /// again, because its id is taken or is not one of this executor's. No
    /// caller can go on from that. It cannot come about where the steps
    /// change the executor's tasks only by adding tasks under fresh ids,
    /// which is all that the operations of a `ReducerScope` do.
    ///
    /// Where no step of a computation does more to the registry than wake
    /// its own task, no task comes back, the modules are left as they were,
    /// and the executor is left as the turns that were taken leave it, each
    /// task resumed by one call of its `resume` with the handle bound to
    /// its id.
    pub fn run_ready_tasks(&mut self, max_turns: usize) -> (fault: Result<(), Fault<C>>)
        ensures
            final(self)@.wf(),
            fault is Ok ==> final(self)@.executor.ready.len() == 0,
            fault matches Err(Fault::TurnsUsedUp) ==> final(self)@.executor.ready.len() > 0,
            old(self)@.all_ready_stale() && old(self)@.executor.ready.len() <= max_turns
                ==> fault is Ok && final(self)@ == old(self)@.drained(),
            fault matches Err(Fault::Unparked(task)) ==> !final(self)@.executor.can_settle(
                task,
                Step::Suspended,
            ),
            (forall|
                computation: &mut C,
                registry: &mut ReducerScope<R, C, J>,
                waker: &TaskWaker,
                step: Step,
            | #[trigger]
                call_ensures(C::resume, (computation, registry, waker), step) ==> mut_ref_future(
                    registry,
                )@.executor.only_adds_tasks_to(mut_ref_current(registry)@.executor)) ==> !(fault
                matches Err(Fault::Unparked(_))),
            exists|states: Seq<CoreState<R, C, J>>|
                {
                    &&& 1 <= states.len() <= max_turns + 1
                    &&& states[0] == old(self)@
                    &&& forall|i: int|
                        0 <= i < states.len() - 1 ==> {
                            &&& (#[trigger] states[i]).executor.ready.len() > 0
                            &&& match states[i].executor.pop().task_to_run(states[i].executor.ready[0]) {
                                None => states[i + 1] == states[i].popped(),
                                Some((task, waker)) => exists|
                                    computation: &mut C,
                                    registry: &mut ReducerScope<R, C, J>,
                                    step: Step,
                                |
                                    {
                                        let resumed = Task { computation: mut_ref_future(computation), ..task };
                                        &&& mut_ref_current(computation) == task.computation
                                        &&& mut_ref_current(registry)@ == states[i].taken(states[i].executor.ready[0])
                                        &&& mut_ref_current(registry).context() == task.context()
                                        &&& #[trigger] call_ensures(C::resume, (computation, registry, &waker), step)
                                        &&& mut_ref_future(registry)@.executor.can_settle(resumed, step)
                                        &&& states[i + 1] == mut_ref_future(registry)@.settled(resumed, step)
                                    },
                            }
                        }
                    &&& match fault {
                        Ok(_) => states.last() == final(self)@,
                        Err(Fault::TurnsUsedUp) => states.last() == final(self)@ && states.len()
                            == max_turns + 1,
                        Err(Fault::Unparked(unparked)) => {
                            &&& states.last().executor.ready.len() > 0
                            &&& states.last().executor.pop().task_to_run(states.last().executor.ready[0]) matches Some((task, waker))
                            &&& exists|computation: &mut C, registry: &mut ReducerScope<R, C, J>|
                                {
                                    let resumed = Task { computation: mut_ref_future(computation), ..task };
                                    &&& mut_ref_current(computation) == task.computation
                                    &&& mut_ref_current(registry)@ == states.last().taken(states.last().executor.ready[0])
                                    &&& mut_ref_current(registry).context() == task.context()
                                    &&& #[trigger] call_ensures(
                                        C::resume,
                                        (computation, registry, &waker),
                                        Step::Suspended,
                                    )
                                    &&& !mut_ref_future(registry)@.executor.can_settle(resumed, Step::Suspended)
                                    &&& unparked == resumed
                                    &&& final(self)@ == mut_ref_future(registry)@
                                }
                        },
                    }
                },
            (forall|
                computation: &mut C,
                registry: &mut ReducerScope<R, C, J>,
                waker: &TaskWaker,
                step: Step,
            | #[trigger]
                call_ensures(C::resume, (computation, registry, waker), step) ==> {
                    ||| mut_ref_future(registry)@ == mut_ref_current(registry)@
                    ||| mut_ref_future(registry)@ == mut_ref_current(registry)@.wake(
                        waker.task_id,
                    )
                }) ==> {
                &&& !(fault matches Err(Fault::Unparked(_)))
                &&& final(self)@.modules == old(self)@.modules
                &&& final(self)@.next_module_id == old(self)@.next_module_id
                &&& exists|resumptions: Seq<Resumption<C>>|
                    {
                        &&& resumptions.len() <= max_turns
                        &&& fault is Err ==> resumptions.len() == max_turns
                        &&& final(self)@.executor == old(self)@.executor.turns(
                            resumptions,
                            resumptions.len() as int,
                        )
                        &&& forall|i: int|
                            0 <= i < resumptions.len() ==> {
                                let before = #[trigger] old(self)@.executor.turns(resumptions, i);
                                &&& before.ready.len() > 0
                                &&& before.parked.contains_key(before.ready[0]) ==> exists|
                                    computation: &mut C,
                                    registry: &mut ReducerScope<R, C, J>,
                                    waker: &TaskWaker,
                                |
                                    {
                                        &&& waker.task_id == before.ready[0]
                                        &&& mut_ref_current(registry)@.executor
                                            == before.pop().take_task(waker.task_id)
                                        &&& mut_ref_current(registry).context()
                                            == before.parked[before.ready[0]].context()
                                        &&& resumptions[i].rewake <==> mut_ref_future(registry)@
                                            == mut_ref_current(registry)@.wake(waker.task_id)
                                        &&& !resumptions[i].rewake <==> mut_ref_future(registry)@
                                            == mut_ref_current(registry)@
                                        &&& mut_ref_current(computation)
                                            == before.parked[before.ready[0]].computation
                                        &&& resumptions[i].step == Step::Suspended
                                            ==> mut_ref_future(computation)
                                            == resumptions[i].computation
                                        &&& #[trigger] call_ensures(
                                            C::resume,
                                            (computation, registry, waker),
                                            resumptions[i].step,
                                        )
                                    }
                            }
                    }
            },
    {
        self.validity();
        let mut taken: usize = 0;
        let ghost mut resumptions: Seq<Resumption<C>> = Seq::empty();
        let ghost mut states: Seq<CoreState<R, C, J>> = seq![self@];
        while taken < max_turns
            invariant
                taken <= max_turns,
                resumptions.len() == taken,
                old(self)@.wf(),
                self@.wf(),
                states.len() == taken + 1,
                states[0] == old(self)@,
                states.last() == self@,
                forall|i: int|
                    0 <= i < taken ==> {
                        &&& (#[trigger] states[i]).executor.ready.len() > 0
                        &&& match states[i].executor.pop().task_to_run(states[i].executor.ready[0]) {
                            None => states[i + 1] == states[i].popped(),
                            Some((task, waker)) => exists|
                                computation: &mut C,
                                registry: &mut ReducerScope<R, C, J>,
                                step: Step,
                            |
                                {
                                    let resumed = Task { computation: mut_ref_future(computation), ..task };
                                    &&& mut_ref_current(computation) == task.computation
                                    &&& mut_ref_current(registry)@ == states[i].taken(states[i].executor.ready[0])
                                    &&& mut_ref_current(registry).context() == task.context()
                                    &&& #[trigger] call_ensures(C::resume, (computation, registry, &waker), step)
                                    &&& mut_ref_future(registry)@.executor.can_settle(resumed, step)
                                    &&& states[i + 1] == mut_ref_future(registry)@.settled(resumed, step)
                                },
                        }
                    },
                old(self)@.all_ready_stale() ==> {
                    &&& taken <= old(self)@.executor.ready.len()
                    &&& self@.modules == old(self)@.modules
                    &&& self@.next_module_id == old(self)@.next_module_id
                    &&& self@.executor == (ExecutorState {
                        ready: old(self)@.executor.ready.skip(taken as int),
                        ..old(self)@.executor
                    })
                },
                (forall|
                computation: &mut C,
                registry: &mut ReducerScope<R, C, J>,
                waker: &TaskWaker,
                step: Step,
            | #[trigger]
                call_ensures(C::resume, (computation, registry, waker), step) ==> {
                    ||| mut_ref_future(registry)@ == mut_ref_current(registry)@
                    ||| mut_ref_future(registry)@ == mut_ref_current(registry)@.wake(
                        waker.task_id,
                    )
                }) ==> {
                    &&& self@.modules == old(self)@.modules
                    &&& self@.next_module_id == old(self)@.next_module_id
                    &&& self@.executor == old(self)@.executor.turns(resumptions, taken as int)
                    &&& forall|i: int|
                            0 <= i < taken ==> {
                                let before = #[trigger] old(self)@.executor.turns(resumptions, i);
                                &&& before.ready.len() > 0
                                &&& before.parked.contains_key(before.ready[0]) ==> exists|
                                    computation: &mut C,
                                    registry: &mut ReducerScope<R, C, J>,
                                    waker: &TaskWaker,
                                |
                                    {
                                        &&& waker.task_id == before.ready[0]
                                        &&& mut_ref_current(registry)@.executor
                                            == before.pop().take_task(waker.task_id)
                                        &&& mut_ref_current(registry).context()
                                            == before.parked[before.ready[0]].context()
                                        &&& resumptions[i].rewake <==> mut_ref_future(registry)@
                                            == mut_ref_current(registry)@.wake(waker.task_id)
                                        &&& !resumptions[i].rewake <==> mut_ref_future(registry)@
                                            == mut_ref_current(registry)@
                                        &&& mut_ref_current(computation)
                                            == before.parked[before.ready[0]].computation
                                        &&& resumptions[i].step == Step::Suspended
                                            ==> mut_ref_future(computation)
                                            == resumptions[i].computation
                                        &&& #[trigger] call_ensures(
                                            C::resume,
                                            (computation, registry, waker),
                                            resumptions[i].step,
                                        )
                                    }
                            }
                },
            decreases max_turns - taken,
        {
            if self.scope.core.executor.is_idle() {
                proof {
                    if old(self)@.all_ready_stale() {
                        assert(self@.executor.ready =~= Seq::<u64>::empty());
                    }
                }
                return Ok(());
            }
            let ghost before = self@;
            let ghost earlier = resumptions;
            let outcome = self.resume_next();
            self.validity();
            taken = taken + 1;
            let ghost task_id = before.executor.ready[0];
            let ghost resumption = Resumption {
                step: step_of(outcome),
                rewake: self@.executor.ready.len() == before.executor.ready.len(),
                computation: if self@.executor.parked.contains_key(task_id) {
                    self@.executor.parked[task_id].computation
                } else {
                    arbitrary()
                },
            };
            proof {
                resumptions = earlier.push(resumption);
            }
            proof {
                if old(self)@.all_ready_stale() {
                    assert(task_id == old(self)@.executor.ready[taken - 1]);
                    assert(before.executor.ready.drop_first() =~= old(self)@.executor.ready.skip(
                        taken as int,
                    ));
                }
                assert forall|i: int| 0 <= i < taken implies old(self)@.executor.turns(
                    resumptions,
                    i,
                ) == old(self)@.executor.turns(earlier, i) by {
                    lemma_turns_of_prefix(old(self)@.executor, earlier, resumptions, i);
                }
                assert((forall|
                computation: &mut C,
                registry: &mut ReducerScope<R, C, J>,
                waker: &TaskWaker,
                step: Step,
            | #[trigger]
                call_ensures(C::resume, (computation, registry, waker), step) ==> {
                    ||| mut_ref_future(registry)@ == mut_ref_current(registry)@
                    ||| mut_ref_future(registry)@ == mut_ref_current(registry)@.wake(
                        waker.task_id,
                    )
                }) ==> {
                    &&& outcome is Ok
                    &&& self@.modules == before.modules
                    &&& self@.next_module_id == before.next_module_id
                    &&& self@.executor == before.executor.turn(resumption)
                    &&& before.executor.parked.contains_key(task_id) ==> exists|
                        computation: &mut C,
                        registry: &mut ReducerScope<R, C, J>,
                        waker: &TaskWaker,
                    |
                        {
                            &&& waker.task_id == task_id
                            &&& mut_ref_current(registry)@.executor
                                == before.executor.pop().take_task(waker.task_id)
                            &&& mut_ref_current(registry).context()
                                == before.executor.parked[task_id].context()
                            &&& resumption.rewake <==> mut_ref_future(registry)@
                                == mut_ref_current(registry)@.wake(waker.task_id)
                            &&& !resumption.rewake <==> mut_ref_future(registry)@
                                == mut_ref_current(registry)@
                            &&& mut_ref_current(computation)
                                == before.executor.parked[task_id].computation
                            &&& resumption.step == Step::Suspended ==> mut_ref_future(
                                computation,
                            ) == resumption.computation
                            &&& #[trigger] call_ensures(
                                C::resume,
                                (computation, registry, waker),
                                resumption.step,
                            )
                        }
                }) by {
                    if (forall|
                computation: &mut C,
                registry: &mut ReducerScope<R, C, J>,
                waker: &TaskWaker,
                step: Step,
            | #[trigger]
                call_ensures(C::resume, (computation, registry, waker), step) ==> {
                    ||| mut_ref_future(registry)@ == mut_ref_current(registry)@
                    ||| mut_ref_future(registry)@ == mut_ref_current(registry)@.wake(
                        waker.task_id,
                    )
                }) {
                        if before.executor.pop().parked.contains_key(task_id) {
                            let task = before.executor.parked[task_id];
                            let waker = before.executor.pop().waker_for(task_id);
                            assert(waker.task_id == task_id);
                            let (computation, registry) = choose|
                                computation: &mut C,
                                registry: &mut ReducerScope<R, C, J>,
                            |
                                {
                                    let resumed = Task {
                                        computation: mut_ref_future(computation),
                                        ..task
                                    };
                                    &&& mut_ref_current(computation) == task.computation
                                    &&& mut_ref_current(registry)@ == before.taken(task_id)
                                    &&& mut_ref_current(registry).context() == task.context()
                                    &&& #[trigger] call_ensures(
                                        C::resume,
                                        (computation, registry, &waker),
                                        step_of(outcome),
                                    )
                                    &&& match outcome {
                                        Ok(Some(step)) => {
                                            &&& mut_ref_future(registry)@.executor.can_settle(
                                                resumed,
                                                step,
                                            )
                                            &&& self@ == mut_ref_future(registry)@.settled(
                                                resumed,
                                                step,
                                            )
                                        },
                                        Ok(None) => false,
                                        Err(returned) => {
                                            &&& returned == resumed
                                            &&& !mut_ref_future(registry)@.executor.can_settle(
                                                resumed,
                                                Step::Suspended,
                                            )
                                            &&& self@ == mut_ref_future(registry)@
                                        },
                                    }
                                };
                            let resumed = Task {
                                computation: mut_ref_future(computation),
                                ..task
                            };
                            let resumed_in = mut_ref_future(registry)@.executor;
                            assert(resumed_in == before.taken(task_id).executor || resumed_in
                                == before.taken(task_id).wake(task_id).executor);
                            assert(resumed_in.can_settle(resumed, step_of(outcome)));
                            assert(outcome is Ok);
                            lemma_turn_of_quiet_step(
                                before.executor,
                                resumed_in,
                                self@.executor,
                                task_id,
                                resumed,
                                resumption,
                            );
                        } else {
                            assert(self@ == before.popped());
                        }
                        assert(self@.executor == before.executor.turn(resumption));
                    }
                }
            }
            let ghost reached = states;
            match outcome {
                Ok(_) => {
                    proof {
                        states = reached.push(self@);
                    }
                    assert(reached[taken - 1] == before);
                    assert forall|i: int| 0 <= i < taken implies (#[trigger] states[i])
                        == reached[i] && states[i + 1] == (if i + 1 < taken {
                        reached[i + 1]
                    } else {
                        self@
                    }) by {}
                },
                Err(task) => {
                    assert((forall|
                        computation: &mut C,
                        registry: &mut ReducerScope<R, C, J>,
                        waker: &TaskWaker,
                        step: Step,
                    | #[trigger]
                        call_ensures(C::resume, (computation, registry, waker), step)
                            ==> mut_ref_future(registry)@.executor.only_adds_tasks_to(
                            mut_ref_current(registry)@.executor,
                        )) ==> false) by {
                        assert(before.executor.pop().parked.contains_key(task_id));
                        assert(before.executor.parked[task_id].id == task_id);
                        assert(task_id < before.executor.next_task_id);
                    }
                    return Err(Fault::Unparked(task));
                },
            }
        }
        if self.scope.core.executor.is_idle() {
            proof {
                if old(self)@.all_ready_stale() {
                    assert(self@.executor.ready =~= Seq::<u64>::empty());
                }
            }
            return Ok(());
        }
        Err(Fault::TurnsUsedUp)
    }
}

} // verus!
