//! Reducers: named entry points of a module. Each call of a reducer starts
//! one independent computation, which acts in the context of that call.

use vstd::prelude::*;

use crate::keys::lists_ids;
use crate::module::{describes_module, is_copy_of_row, AccessLevel, ModuleInfos};
use crate::spacetime_core::{module_not_found, CoreState, SpacetimeCore};
use crate::table::{observes, Row};

verus! {

/// The error of a context that reaches for what it may not touch.
pub open spec fn access_denied() -> &'static str {
    "You do not have access"
}

/// What a running reducer knows of its own call: the module and reducer it
/// was started for, and the access level it acts with.
#[derive(Clone, Copy, Debug)]
pub struct ReducerContext {
    pub access_level: AccessLevel,
    pub reducer_id: u64,
    pub module_id: u64,
}

/// Starts a fresh computation of type `C` for one call of a reducer.
pub trait ReducerJob<C> {
    fn start(&self, ctx: ReducerContext) -> C;
}

/// A reducer's job, whatever type implements it: the job type of a
/// registry whose reducers are of many makes.
#[verifier::reject_recursive_types(C)]
pub struct BoxedJob<C> {
    pub job: Box<dyn ReducerJob<C>>,
}

impl<C> ReducerJob<C> for BoxedJob<C> {
    fn start(&self, ctx: ReducerContext) -> C {
        self.job.start(ctx)
    }
}

/// Whether `computation` is what `job` may start when it is handed `ctx`.
pub open spec fn is_started_by<C, J: ReducerJob<C>>(
    computation: C,
    job: J,
    ctx: ReducerContext,
) -> bool {
    call_ensures(J::start, (&job, ctx), computation)
}

/// A named entry point of a module, with a job of type `J`. It keeps
/// nothing between calls; each call starts a computation of its own.
pub struct Reducer<J> {
    pub id: u64,
    pub module_id: u64,
    pub name: String,
    pub job: J,
}

/// A descriptive snapshot of a reducer.
#[derive(Clone, Debug)]
pub struct ReducerInfos {
    pub id: u64,
    pub module_id: u64,
    pub name: String,
}

impl<J> Reducer<J> {
    pub fn get_infos(&self) -> (infos: ReducerInfos)
        ensures
            infos.id == self.id,
            infos.module_id == self.module_id,
            infos.name@ == self.name@,
    {
        ReducerInfos { id: self.id, module_id: self.module_id, name: self.name.clone() }
    }
}

/// The access policy: a `Standard` context reaches its own module and no
/// other; an `Admin` context reaches every module.
pub proof fn lemma_access_policy(ctx: ReducerContext, module_id: u64)
    ensures
        ctx.access_level == AccessLevel::Standard && module_id != ctx.module_id
            ==> !ctx.may_access(module_id),
        ctx.access_level == AccessLevel::Admin ==> ctx.may_access(module_id),
        ctx.may_access(ctx.module_id),
{
}

impl ReducerContext {
    pub fn new(module_id: u64, reducer_id: u64, access_level: AccessLevel) -> (ctx: Self)
        ensures
            ctx.module_id == module_id,
            ctx.reducer_id == reducer_id,
            ctx.access_level == access_level,
    {
        Self { access_level, module_id, reducer_id }
    }

    /// Whether this context may read or change what belongs to `module_id`:
    /// its own module always, any other module only with `Admin` access.
    pub open spec fn may_access(&self, module_id: u64) -> bool {
        module_id == self.module_id || self.access_level == AccessLevel::Admin
    }

    /// Whether this context gets as far as the table at (`module_id`,
    /// `table_id`): it may access the module, and the table exists.
    pub open spec fn reaches_table<R, C, J>(
        &self,
        core: CoreState<R, C, J>,
        module_id: u64,
        table_id: u64,
    ) -> bool {
        self.may_access(module_id) && core.has_table(module_id, table_id)
    }

    /// Whether this context acts with `Admin` access.
    pub open spec fn is_admin(&self) -> bool {
        self.access_level == AccessLevel::Admin
    }

    fn allows(&self, module_id: u64) -> (allowed: bool)
        ensures
            allowed == self.may_access(module_id),
    {
        module_id == self.module_id || self.access_level == AccessLevel::Admin
    }

    /// The ids of all modules; for `Admin` contexts only.
    pub fn get_modules_id<R: Row, C, J>(&self, core: &SpacetimeCore<R, C, J>) -> (ids: Result<
        Vec<u64>,
        &'static str,
    >)
        ensures
            match ids {
                Ok(ids) => self.is_admin() && lists_ids(ids@, core@.modules.dom()),
                Err(error) => !self.is_admin() && error == access_denied(),
            },
    {
        if self.access_level == AccessLevel::Admin {
            Ok(core.get_modules_id())
        } else {
            Err("You do not have access")
        }
    }

    /// A descriptive snapshot of the module `module_id`.
    pub fn get_module_infos<R: Row, C, J>(&self, core: &SpacetimeCore<R, C, J>, module_id: u64) -> (infos:
        Result<ModuleInfos, &'static str>)
        ensures
            match infos {
                Ok(infos) => {
                    &&& self.may_access(module_id)
                    &&& core@.modules.contains_key(module_id)
                    &&& describes_module(infos, core@.modules[module_id])
                },
                Err(error) => if self.may_access(module_id) {
                    !core@.modules.contains_key(module_id) && error == module_not_found()
                } else {
                    error == access_denied()
                },
            },
    {
        if self.allows(module_id) {
            core.get_module_infos(module_id)
        } else {
            Err("You do not have access")
        }
    }

    /// Calls a reducer of any module. Starting further work is open to
    /// every context; no access check is made.
    pub fn call_reducer<R: Row, C, J: ReducerJob<C>>(&self, core: &mut SpacetimeCore<R, C, J>, module_id: u64, reducer_id: u64)
        requires
            old(core)@.can_call_reducer(module_id, reducer_id),
        ensures
            old(core)@.reducer_called(module_id, reducer_id, final(core)@),
    {
        core.call_reducer(module_id, reducer_id)
    }

    /// Registers a new module; for `Admin` contexts only.
    pub fn insert_module<R: Row, C, J>(
        &self,
        core: &mut SpacetimeCore<R, C, J>,
        name: String,
        access_level: AccessLevel,
    ) -> (inserted: Result<(), &'static str>)
        requires
            self.is_admin() ==> old(core)@.has_module_room(),
        ensures
            inserted == (if self.is_admin() {
                Ok(())
            } else {
                Err(access_denied())
            }),
            final(core)@ == (if self.is_admin() {
                old(core)@.insert_module(name@, access_level)
            } else {
                old(core)@
            }),
    {
        if self.access_level == AccessLevel::Admin {
            core.insert_module(name, access_level);
            Ok(())
        } else {
            Err("You do not have access")
        }
    }

    /// Registers a reducer in a module that this context may access.
    pub fn insert_reducer<R: Row, C, J>(
        &self,
        core: &mut SpacetimeCore<R, C, J>,
        module_id: u64,
        name: String,
        job: J,
    ) -> (reducer_id: Result<u64, &'static str>)
        requires
            self.may_access(module_id) ==> old(core)@.has_reducer_room(module_id),
        ensures
            reducer_id == (if self.may_access(module_id) {
                old(core)@.insert_reducer_result(module_id)
            } else {
                Err(access_denied())
            }),
            final(core)@ == (if self.may_access(module_id) {
                old(core)@.insert_reducer(module_id, name, job)
            } else {
                old(core)@
            }),
    {
        if self.allows(module_id) {
            core.insert_reducer(module_id, name, job)
        } else {
            Err("You do not have access")
        }
    }

    /// Creates a table in a module that this context may access.
    pub fn insert_table<R: Row, C, J>(
        &self,
        core: &mut SpacetimeCore<R, C, J>,
        module_id: u64,
        name: String,
        row_type: u64,
    ) -> (table_id: Result<u64, &'static str>)
        requires
            self.may_access(module_id) ==> old(core)@.has_table_room(module_id),
        ensures
            table_id == (if self.may_access(module_id) {
                old(core)@.insert_table_result(module_id)
            } else {
                Err(access_denied())
            }),
            final(core)@ == (if self.may_access(module_id) {
                old(core)@.insert_table(module_id, name@, row_type)
            } else {
                old(core)@
            }),
    {
        if self.allows(module_id) {
            core.insert_table(module_id, name, row_type)
        } else {
            Err("You do not have access")
        }
    }

    /// Stores a row in a table of a module that this context may access.
    pub fn insert_table_row<R: Row, C, J>(
        &self,
        core: &mut SpacetimeCore<R, C, J>,
        module_id: u64,
        table_id: u64,
        content: R,
    ) -> (row_id: Result<u64, &'static str>)
        requires
            self.may_access(module_id) ==> old(core)@.has_row_room(module_id, table_id),
        ensures
            exists|observed: u64| #[trigger]
                observes(
                    observed,
                    content,
                    self.reaches_table(old(core)@, module_id, table_id),
                ) && row_id == (if self.may_access(module_id) {
                    old(core)@.insert_table_row_result(module_id, table_id, observed)
                } else {
                    Err(access_denied())
                }) && final(core)@ == (if self.may_access(module_id) {
                    old(core)@.insert_table_row(module_id, table_id, content, observed)
                } else {
                    old(core)@
                }),
    {
        if self.allows(module_id) {
            let row_id = core.insert_table_row(module_id, table_id, content);
            let ghost seen = choose|observed: u64| #[trigger]
                observes(observed, content, old(core)@.has_table(module_id, table_id)) && row_id
                    == old(core)@.insert_table_row_result(module_id, table_id, observed)
                    && core@ == old(core)@.insert_table_row(
                    module_id,
                    table_id,
                    content,
                    observed,
                );
            assert(observes(
                seen,
                content,
                self.reaches_table(old(core)@, module_id, table_id),
            ));
            row_id
        } else {
            assert(observes(
                0,
                content,
                self.reaches_table(old(core)@, module_id, table_id),
            ));
            Err("You do not have access")
        }
    }

    /// Removes a row from a table of a module that this context may access,
    /// and hands it to the caller.
    pub fn delete_table_row<R: Row, C, J>(
        &self,
        core: &mut SpacetimeCore<R, C, J>,
        module_id: u64,
        table_id: u64,
        row_id: u64,
    ) -> (removed: Result<R, &'static str>)
        ensures
            removed == (if self.may_access(module_id) {
                old(core)@.row(module_id, table_id, row_id)
            } else {
                Err(access_denied())
            }),
            final(core)@ == (if self.may_access(module_id) {
                old(core)@.delete_table_row(module_id, table_id, row_id)
            } else {
                old(core)@
            }),
    {
        if self.allows(module_id) {
            core.delete_table_row(module_id, table_id, row_id)
        } else {
            Err("You do not have access")
        }
    }

    /// Replaces a row in a table of a module that this context may access,
    /// and returns the row it replaced.
    pub fn update_table_row<R: Row, C, J>(
        &self,
        core: &mut SpacetimeCore<R, C, J>,
        module_id: u64,
        table_id: u64,
        row_id: u64,
        content: R,
    ) -> (previous: Result<R, &'static str>)
        ensures
            exists|observed: u64| #[trigger]
                observes(
                    observed,
                    content,
                    self.reaches_table(old(core)@, module_id, table_id),
                ) && previous == (if self.may_access(module_id) {
                    old(core)@.update_table_row_result(module_id, table_id, row_id, observed)
                } else {
                    Err(access_denied())
                }) && final(core)@ == (if self.may_access(module_id) {
                    old(core)@.update_table_row(module_id, table_id, row_id, content, observed)
                } else {
                    old(core)@
                }),
    {
        if self.allows(module_id) {
            let previous = core.update_table_row(module_id, table_id, row_id, content);
            let ghost seen = choose|observed: u64| #[trigger]
                observes(observed, content, old(core)@.has_table(module_id, table_id))
                    && previous == old(core)@.update_table_row_result(
                    module_id,
                    table_id,
                    row_id,
                    observed,
                ) && core@ == old(core)@.update_table_row(
                    module_id,
                    table_id,
                    row_id,
                    content,
                    observed,
                );
            assert(observes(
                seen,
                content,
                self.reaches_table(old(core)@, module_id, table_id),
            ));
            previous
        } else {
            assert(observes(
                0,
                content,
                self.reaches_table(old(core)@, module_id, table_id),
            ));
            Err("You do not have access")
        }
    }

    /// Returns an independent copy of a row in a table of a module that
    /// this context may access.
    pub fn get_table_row<R: Row + Clone, C, J>(
        &self,
        core: &SpacetimeCore<R, C, J>,
        module_id: u64,
        table_id: u64,
        row_id: u64,
    ) -> (copy: Result<R, &'static str>)
        ensures
            is_copy_of_row(
                copy,
                if self.may_access(module_id) {
                    core@.row(module_id, table_id, row_id)
                } else {
                    Err(access_denied())
                },
            ),
    {
        if self.allows(module_id) {
            core.get_table_row(module_id, table_id, row_id)
        } else {
            Err("You do not have access")
        }
    }
}

} // verus!
