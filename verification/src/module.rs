//! Modules: isolated namespaces that own reducers and tables, and hand out
//! their ids from counters that never go back.

use std::collections::BTreeMap;
use vstd::prelude::*;

use crate::keys::{lists_ids, map_keys};
use crate::reducer::{Reducer, ReducerInfos};
use crate::table::{
    is_row_type_of, observes, wrong_type, Row, Table, TableBase, TableInfos, TableState,
};

verus! {

/// Who may act across module boundaries.
#[derive(Clone, Copy, Debug, PartialEq, Eq, Structural)]
pub enum AccessLevel {
    Admin,
    Standard,
}

/// A descriptive snapshot of a module; it never holds row contents.
#[derive(Clone, Debug)]
pub struct ModuleInfos {
    pub id: u64,
    pub name: String,
    pub reducers: Vec<ReducerInfos>,
    pub tables: Vec<TableInfos>,
    pub access_level: AccessLevel,
}

/// The error of an operation on a table that does not exist.
pub open spec fn table_not_found() -> &'static str {
    "Table not found"
}

/// The error of an operation on a row that does not exist.
pub open spec fn row_not_found() -> &'static str {
    "Row not found"
}

/// What a module is, as a mathematical value.
#[verifier::ext_equal]
pub struct ModuleState<R, J> {
    pub id: u64,
    pub name: Seq<char>,
    pub access_level: AccessLevel,
    pub reducers: Map<u64, Reducer<J>>,
    pub tables: Map<u64, TableState<R>>,
    pub next_reducer_id: nat,
    pub next_table_id: nat,
}

impl<R, J> ModuleState<R, J> {
    /// Every reducer and table sits below its counter and carries the id it
    /// is stored under; every table is well formed.
    pub open spec fn wf(self) -> bool {
        &&& self.next_reducer_id <= u64::MAX
        &&& self.next_table_id <= u64::MAX
        &&& forall|reducer_id: u64| #[trigger]
            self.reducers.contains_key(reducer_id) ==> {
                &&& reducer_id < self.next_reducer_id
                &&& self.reducers[reducer_id].id == reducer_id
                &&& self.reducers[reducer_id].module_id == self.id
            }
        &&& forall|table_id: u64| #[trigger]
            self.tables.contains_key(table_id) ==> {
                &&& table_id < self.next_table_id
                &&& self.tables[table_id].id == table_id
                &&& self.tables[table_id].wf()
            }
    }

    pub open spec fn empty(id: u64, name: Seq<char>, access_level: AccessLevel) -> Self {
        ModuleState {
            id,
            name,
            access_level,
            reducers: Map::empty(),
            tables: Map::empty(),
            next_reducer_id: 0,
            next_table_id: 0,
        }
    }

    pub open spec fn fresh_reducer_id(self) -> u64 {
        self.next_reducer_id as u64
    }

    pub open spec fn fresh_table_id(self) -> u64 {
        self.next_table_id as u64
    }

    pub open spec fn has_reducer_room(self) -> bool {
        self.next_reducer_id < u64::MAX
    }

    pub open spec fn has_table_room(self) -> bool {
        self.next_table_id < u64::MAX
    }

    /// Whether the table `table_id`, if there is one, can take one more row.
    pub open spec fn has_row_room(self, table_id: u64) -> bool {
        self.tables.contains_key(table_id) ==> self.tables[table_id].has_room()
    }

    pub open spec fn insert_reducer(self, name: String, job: J) -> Self {
        ModuleState {
            reducers: self.reducers.insert(
                self.fresh_reducer_id(),
                Reducer { id: self.fresh_reducer_id(), module_id: self.id, name, job },
            ),
            next_reducer_id: self.next_reducer_id + 1,
            ..self
        }
    }

    pub open spec fn delete_reducer(self, reducer_id: u64) -> Self {
        ModuleState { reducers: self.reducers.remove(reducer_id), ..self }
    }

    pub open spec fn insert_table(self, name: Seq<char>, row_type: u64) -> Self {
        ModuleState {
            tables: self.tables.insert(
                self.fresh_table_id(),
                TableState::empty(self.fresh_table_id(), name, row_type),
            ),
            next_table_id: self.next_table_id + 1,
            ..self
        }
    }

    pub open spec fn delete_table(self, table_id: u64) -> Self {
        ModuleState { tables: self.tables.remove(table_id), ..self }
    }

    /// What handing in a value of type `observed` for insertion into
    /// `table_id` returns: the fresh row id, or what is wrong.
    pub open spec fn insert_table_row_result(self, table_id: u64, observed: u64) -> Result<
        u64,
        &'static str,
    > {
        if self.tables.contains_key(table_id) {
            self.tables[table_id].insert_row_any_result(observed)
        } else {
            Err(table_not_found())
        }
    }

    /// The module after `content`, a value of type `observed`, was handed
    /// in for insertion into `table_id`.
    pub open spec fn insert_table_row(self, table_id: u64, content: R, observed: u64) -> Self {
        if self.tables.contains_key(table_id) {
            ModuleState {
                tables: self.tables.insert(
                    table_id,
                    self.tables[table_id].insert_row_any(content, observed),
                ),
                ..self
            }
        } else {
            self
        }
    }

    /// What handing in a value of type `observed` to replace the row at
    /// (`table_id`, `row_id`) returns: the row it replaced, or what is
    /// wrong.
    pub open spec fn update_table_row_result(self, table_id: u64, row_id: u64, observed: u64) -> Result<
        R,
        &'static str,
    > {
        if !self.tables.contains_key(table_id) {
            Err(table_not_found())
        } else if observed != self.tables[table_id].row_type {
            Err(wrong_type())
        } else {
            self.row(table_id, row_id)
        }
    }

    /// The row stored at (`table_id`, `row_id`), or which of the two is unknown.
    pub open spec fn row(self, table_id: u64, row_id: u64) -> Result<R, &'static str> {
        if !self.tables.contains_key(table_id) {
            Err(table_not_found())
        } else {
            match self.tables[table_id].row(row_id) {
                Some(row) => Ok(row),
                None => Err(row_not_found()),
            }
        }
    }

    pub open spec fn delete_table_row(self, table_id: u64, row_id: u64) -> Self {
        if self.tables.contains_key(table_id) {
            ModuleState {
                tables: self.tables.insert(table_id, self.tables[table_id].delete_row(row_id)),
                ..self
            }
        } else {
            self
        }
    }

    /// The module after `content`, a value of type `observed`, was handed
    /// in to replace the row at (`table_id`, `row_id`).
    pub open spec fn update_table_row(
        self,
        table_id: u64,
        row_id: u64,
        content: R,
        observed: u64,
    ) -> Self {
        if self.tables.contains_key(table_id) {
            ModuleState {
                tables: self.tables.insert(
                    table_id,
                    self.tables[table_id].update_row_any(row_id, content, observed),
                ),
                ..self
            }
        } else {
            self
        }
    }
}

/// One change to a module.
pub enum ModuleOp<R, J> {
    InsertReducer(String, J),
    DeleteReducer(u64),
    InsertTable(Seq<char>, u64),
    DeleteTable(u64),
    InsertRow(u64, R, u64),
    UpdateRow(u64, u64, R, u64),
    DeleteRow(u64, u64),
}

impl<R, J> ModuleState<R, J> {
    /// The module after `op`. An insertion for which the counter is used up
    /// cannot be asked for and changes nothing.
    pub open spec fn apply(self, op: ModuleOp<R, J>) -> Self {
        match op {
            ModuleOp::InsertReducer(name, job) => if self.has_reducer_room() {
                self.insert_reducer(name, job)
            } else {
                self
            },
            ModuleOp::DeleteReducer(reducer_id) => self.delete_reducer(reducer_id),
            ModuleOp::InsertTable(name, row_type) => if self.has_table_room() {
                self.insert_table(name, row_type)
            } else {
                self
            },
            ModuleOp::DeleteTable(table_id) => self.delete_table(table_id),
            ModuleOp::InsertRow(table_id, content, observed) => if self.has_row_room(table_id) {
                self.insert_table_row(table_id, content, observed)
            } else {
                self
            },
            ModuleOp::UpdateRow(table_id, row_id, content, observed) => self.update_table_row(
                table_id,
                row_id,
                content,
                observed,
            ),
            ModuleOp::DeleteRow(table_id, row_id) => self.delete_table_row(table_id, row_id),
        }
    }

    /// The module after the first `n` of `ops`, applied in turn.
    pub open spec fn apply_first(self, ops: Seq<ModuleOp<R, J>>, n: int) -> Self
        decreases n,
    {
        if n <= 0 {
            self
        } else {
            self.apply_first(ops, n - 1).apply(ops[n - 1])
        }
    }
}

/// One change leaves a module well formed and takes neither counter back.
pub proof fn lemma_apply_keeps_module<R, J>(module: ModuleState<R, J>, op: ModuleOp<R, J>)
    requires
        module.wf(),
    ensures
        module.apply(op).wf(),
        module.apply(op).id == module.id,
        module.next_reducer_id <= module.apply(op).next_reducer_id,
        module.next_table_id <= module.apply(op).next_table_id,
{
}

/// Whatever is done to a module, it stays well formed and its counters
/// never go back.
pub proof fn lemma_counters_never_go_back<R, J>(
    module: ModuleState<R, J>,
    ops: Seq<ModuleOp<R, J>>,
    n: int,
)
    requires
        module.wf(),
        0 <= n <= ops.len(),
    ensures
        module.apply_first(ops, n).wf(),
        forall|m: int|
            0 <= m <= n ==> {
                &&& (#[trigger] module.apply_first(ops, m)).next_reducer_id
                    <= module.apply_first(ops, n).next_reducer_id
                &&& module.apply_first(ops, m).next_table_id <= module.apply_first(
                    ops,
                    n,
                ).next_table_id
            },
    decreases n,
{
    if n > 0 {
        lemma_counters_never_go_back(module, ops, n - 1);
        lemma_apply_keeps_module(module.apply_first(ops, n - 1), ops[n - 1]);
    }
}

/// Reducer ids are unique for the life of a module: a reducer id that is in
/// use at some time, whether or not the reducer is deleted later, is below
/// every id that is handed out from then on.
pub proof fn lemma_reducer_ids_never_reused<R, J>(
    module: ModuleState<R, J>,
    ops: Seq<ModuleOp<R, J>>,
    earlier: int,
    later: int,
    reducer_id: u64,
)
    requires
        module.wf(),
        0 <= earlier <= later <= ops.len(),
        module.apply_first(ops, earlier).reducers.contains_key(reducer_id),
        module.apply_first(ops, later).has_reducer_room(),
    ensures
        reducer_id < module.apply_first(ops, later).fresh_reducer_id(),
{
    lemma_counters_never_go_back(module, ops, later);
    lemma_counters_never_go_back(module, ops, earlier);
}

/// Table ids are unique for the life of a module: a table id that is in use
/// at some time, whether or not the table is deleted later, is below every
/// id that is handed out from then on.
pub proof fn lemma_table_ids_never_reused<R, J>(
    module: ModuleState<R, J>,
    ops: Seq<ModuleOp<R, J>>,
    earlier: int,
    later: int,
    table_id: u64,
)
    requires
        module.wf(),
        0 <= earlier <= later <= ops.len(),
        module.apply_first(ops, earlier).tables.contains_key(table_id),
        module.apply_first(ops, later).has_table_room(),
    ensures
        table_id < module.apply_first(ops, later).fresh_table_id(),
{
    lemma_counters_never_go_back(module, ops, later);
    lemma_counters_never_go_back(module, ops, earlier);
}

/// Reducer ids strictly increase: of two registrations, the later one
/// hands out the larger id, whatever was deleted in between.
pub proof fn lemma_reducer_ids_increase<R, J>(
    module: ModuleState<R, J>,
    ops: Seq<ModuleOp<R, J>>,
    earlier: int,
    later: int,
)
    requires
        module.wf(),
        0 <= earlier < later < ops.len(),
        ops[earlier] is InsertReducer,
        ops[later] is InsertReducer,
        module.apply_first(ops, later).has_reducer_room(),
    ensures
        module.apply_first(ops, earlier).fresh_reducer_id() < module.apply_first(
            ops,
            later,
        ).fresh_reducer_id(),
{
    lemma_counters_never_go_back(module, ops, later);
    lemma_counters_never_go_back(module, ops, earlier);
    assert(module.apply_first(ops, earlier + 1) == module.apply_first(ops, earlier).apply(
        ops[earlier],
    ));
}

/// Table ids strictly increase: of two creations, the later one hands out
/// the larger id, whatever was deleted in between.
pub proof fn lemma_table_ids_increase<R, J>(
    module: ModuleState<R, J>,
    ops: Seq<ModuleOp<R, J>>,
    earlier: int,
    later: int,
)
    requires
        module.wf(),
        0 <= earlier < later < ops.len(),
        ops[earlier] is InsertTable,
        ops[later] is InsertTable,
        module.apply_first(ops, later).has_table_room(),
    ensures
        module.apply_first(ops, earlier).fresh_table_id() < module.apply_first(
            ops,
            later,
        ).fresh_table_id(),
{
    lemma_counters_never_go_back(module, ops, later);
    lemma_counters_never_go_back(module, ops, earlier);
    assert(module.apply_first(ops, earlier + 1) == module.apply_first(ops, earlier).apply(
        ops[earlier],
    ));
}

/// Whether `infos` describes the reducers in `reducers`, each of them once,
/// from the smallest id up.
pub open spec fn describes_reducers<J>(infos: Seq<ReducerInfos>, reducers: Map<u64, Reducer<J>>) -> bool {
    &&& infos.len() == reducers.dom().len()
    &&& forall|i: int|
        0 <= i < infos.len() ==> {
            &&& reducers.contains_key(#[trigger] infos[i].id)
            &&& infos[i].module_id == reducers[infos[i].id].module_id
            &&& infos[i].name@ == reducers[infos[i].id].name@
        }
    &&& forall|i: int, j: int|
        0 <= i < j < infos.len() ==> (#[trigger] infos[i]).id < (#[trigger] infos[j]).id
    &&& forall|reducer_id: u64| #[trigger]
        reducers.contains_key(reducer_id) ==> exists|i: int|
            0 <= i < infos.len() && (#[trigger] infos[i]).id == reducer_id
}

/// Whether `infos` describes the tables in `tables`, each of them once,
/// from the smallest id up.
pub open spec fn describes_tables<R>(infos: Seq<TableInfos>, tables: Map<u64, TableState<R>>) -> bool {
    &&& infos.len() == tables.dom().len()
    &&& forall|i: int|
        0 <= i < infos.len() ==> {
            &&& tables.contains_key(#[trigger] infos[i].id)
            &&& infos[i].name@ == tables[infos[i].id].name
        }
    &&& forall|i: int, j: int|
        0 <= i < j < infos.len() ==> (#[trigger] infos[i]).id < (#[trigger] infos[j]).id
    &&& forall|table_id: u64| #[trigger]
        tables.contains_key(table_id) ==> exists|i: int|
            0 <= i < infos.len() && (#[trigger] infos[i]).id == table_id
}

/// Whether `infos` is a snapshot of `module`.
pub open spec fn describes_module<R, J>(infos: ModuleInfos, module: ModuleState<R, J>) -> bool {
    &&& infos.id == module.id
    &&& infos.name@ == module.name
    &&& infos.access_level == module.access_level
    &&& describes_reducers(infos.reducers@, module.reducers)
    &&& describes_tables(infos.tables@, module.tables)
}

/// Whether `copy` may be what a lookup hands out for `row`: an error is
/// passed on as it is, a stored row gives a clone of itself.
pub open spec fn is_copy_of_row<R: Clone>(
    copy: Result<R, &'static str>,
    row: Result<R, &'static str>,
) -> bool {
    match (copy, row) {
        (Ok(c), Ok(r)) => cloned(r, c),
        (Err(e), Err(f)) => e == f,
        _ => false,
    }
}

/// An isolated namespace: reducers whose jobs are of type `J`, and tables
/// that take values of the kind `R`.
pub struct Module<R, J> {
    id: u64,
    name: String,
    reducers: BTreeMap<u64, Reducer<J>>,
    access_level: AccessLevel,
    tables: BTreeMap<u64, Table<R>>,
    next_reducer_id: u64,
    next_table_id: u64,
}

impl<R, J> View for Module<R, J> {
    type V = ModuleState<R, J>;

    closed spec fn view(&self) -> ModuleState<R, J> {
        ModuleState {
            id: self.id,
            name: self.name@,
            access_level: self.access_level,
            reducers: self.reducers@,
            tables: self.tables@.map_values(|table: Table<R>| table@),
            next_reducer_id: self.next_reducer_id as nat,
            next_table_id: self.next_table_id as nat,
        }
    }
}

impl<R, J> Module<R, J> {
    #[verifier::type_invariant]
    spec fn inv(self) -> bool {
        &&& forall|reducer_id: u64| #[trigger]
            self.reducers@.contains_key(reducer_id) ==> {
                &&& reducer_id < self.next_reducer_id
                &&& self.reducers@[reducer_id].id == reducer_id
                &&& self.reducers@[reducer_id].module_id == self.id
            }
        &&& forall|table_id: u64| #[trigger]
            self.tables@.contains_key(table_id) ==> {
                &&& table_id < self.next_table_id
                &&& self.tables@[table_id]@.id == table_id
                &&& self.tables@[table_id]@.wf()
            }
    }
}

impl<R: Row, J> Module<R, J> {
    /// A module without reducers and tables.
    pub fn new(id: u64, name: String, access_level: AccessLevel) -> (module: Self)
        ensures
            module@ == ModuleState::<R, J>::empty(id, name@, access_level),
    {
        let module = Module {
            id,
            name,
            access_level,
            reducers: BTreeMap::new(),
            tables: BTreeMap::new(),
            next_reducer_id: 0,
            next_table_id: 0,
        };
        assert(module@.tables =~= Map::empty());
        module
    }

    /// States what holds of every module: its state is well formed.
    pub fn validity(&self)
        ensures
            self@.wf(),
    {
        proof {
            use_type_invariant(self);
        }
    }

    pub fn id(&self) -> (id: u64)
        ensures
            id == self@.id,
    {
        self.id
    }

    pub fn name(&self) -> (name: &String)
        ensures
            name@ == self@.name,
    {
        &self.name
    }

    pub fn access_level(&self) -> (access_level: AccessLevel)
        ensures
            access_level == self@.access_level,
    {
        self.access_level
    }

    /// Whether the module can take one more reducer.
    pub fn has_reducer_room(&self) -> (room: bool)
        ensures
            room == self@.has_reducer_room(),
    {
        self.next_reducer_id < u64::MAX
    }

    /// Whether the module can take one more table.
    pub fn has_table_room(&self) -> (room: bool)
        ensures
            room == self@.has_table_room(),
    {
        self.next_table_id < u64::MAX
    }

    /// Whether the table `table_id`, if there is one, can take one more row.
    pub fn has_row_room(&self, table_id: u64) -> (room: bool)
        ensures
            room == self@.has_row_room(table_id),
    {
        match self.tables.get(&table_id) {
            Some(table) => table.has_room(),
            None => true,
        }
    }

    /// Registers a reducer under a fresh id and returns that id.
    pub fn insert_reducer(&mut self, name: String, job: J) -> (reducer_id: u64)
        requires
            old(self)@.has_reducer_room(),
        ensures
            reducer_id == old(self)@.fresh_reducer_id(),
            final(self)@ == old(self)@.insert_reducer(name, job),
    {
        proof {
            use_type_invariant(&*self);
        }
        let reducer = Reducer { id: self.next_reducer_id, module_id: self.id, name, job };
        let reducer_id = reducer.id;
        let mut reducers = BTreeMap::new();
        std::mem::swap(&mut reducers, &mut self.reducers);
        self.next_reducer_id = reducer_id + 1;
        reducers.insert(reducer_id, reducer);
        self.reducers = reducers;
        reducer_id
    }

    /// Removes a reducer; an unknown id changes nothing.
    pub fn delete_reducer(&mut self, reducer_id: u64)
        ensures
            final(self)@ == old(self)@.delete_reducer(reducer_id),
    {
        proof {
            use_type_invariant(&*self);
        }
        let mut reducers = BTreeMap::new();
        std::mem::swap(&mut reducers, &mut self.reducers);
        reducers.remove(&reducer_id);
        self.reducers = reducers;
    }

    /// The reducer registered under `reducer_id`, if any.
    pub fn get_reducer(&self, reducer_id: u64) -> (reducer: Option<&Reducer<J>>)
        ensures
            reducer == (if self@.reducers.contains_key(reducer_id) {
                Some(&self@.reducers[reducer_id])
            } else {
                None
            }),
    {
        self.reducers.get(&reducer_id)
    }

    /// A descriptive snapshot of the module: what it is called, and a
    /// summary of each reducer and each table. It holds no row.
    pub fn get_infos(&self) -> (infos: ModuleInfos)
        ensures
            describes_module(infos, self@),
    {
        proof {
            use_type_invariant(self);
        }
        let reducer_ids = map_keys(&self.reducers);
        let mut reducers: Vec<ReducerInfos> = Vec::new();
        let mut i: usize = 0;
        while i < reducer_ids.len()
            invariant
                i <= reducer_ids.len(),
                reducers@.len() == i,
                lists_ids(reducer_ids@, self.reducers@.dom()),
                forall|id: u64| #[trigger]
                    self.reducers@.contains_key(id) ==> self.reducers@[id].id == id,
                forall|j: int|
                    0 <= j < i ==> {
                        &&& (#[trigger] reducers@[j]).id == reducer_ids@[j]
                        &&& reducers@[j].module_id == self.reducers@[reducer_ids@[j]].module_id
                        &&& reducers@[j].name@ == self.reducers@[reducer_ids@[j]].name@
                    },
            decreases reducer_ids.len() - i,
        {
            assert(reducer_ids@.contains(reducer_ids@[i as int]));
            match self.reducers.get(&reducer_ids[i]) {
                Some(reducer) => reducers.push(reducer.get_infos()),
                None => {},
            }
            i = i + 1;
        }
        let table_ids = map_keys(&self.tables);
        let mut tables: Vec<TableInfos> = Vec::new();
        let mut i: usize = 0;
        while i < table_ids.len()
            invariant
                i <= table_ids.len(),
                tables@.len() == i,
                lists_ids(table_ids@, self.tables@.dom()),
                forall|id: u64| #[trigger]
                    self.tables@.contains_key(id) ==> self.tables@[id]@.id == id,
                forall|j: int|
                    0 <= j < i ==> {
                        &&& (#[trigger] tables@[j]).id == table_ids@[j]
                        &&& tables@[j].name@ == self.tables@[table_ids@[j]]@.name
                    },
            decreases table_ids.len() - i,
        {
            assert(table_ids@.contains(table_ids@[i as int]));
            match self.tables.get(&table_ids[i]) {
                Some(table) => tables.push(table.get_infos()),
                None => {},
            }
            i = i + 1;
        }
        proof {
            assert(self@.tables.dom() =~= self.tables@.dom());
            assert forall|id: u64| #[trigger] self@.reducers.contains_key(id) implies exists|
                j: int,
            |
                0 <= j < reducers@.len() && (#[trigger] reducers@[j]).id == id by {
                assert(reducer_ids@.contains(id));
                let j = choose|j: int| 0 <= j < reducer_ids@.len() && reducer_ids@[j] == id;
                assert(reducers@[j].id == id);
            }
            assert forall|id: u64| #[trigger] self@.tables.contains_key(id) implies exists|
                j: int,
            |
                0 <= j < tables@.len() && (#[trigger] tables@[j]).id == id by {
                assert(self.tables@.contains_key(id));
                assert(table_ids@.contains(id));
                let j = choose|j: int| 0 <= j < table_ids@.len() && table_ids@[j] == id;
                assert(tables@[j].id == id);
            }
        }
        ModuleInfos {
            id: self.id,
            name: self.name.clone(),
            access_level: self.access_level,
            reducers,
            tables,
        }
    }

    /// Creates an empty table for rows of the type `row_type` under a fresh
    /// id and returns that id.
    pub fn insert_table(&mut self, name: String, row_type: u64) -> (table_id: u64)
        requires
            old(self)@.has_table_room(),
        ensures
            table_id == old(self)@.fresh_table_id(),
            final(self)@ == old(self)@.insert_table(name@, row_type),
    {
        proof {
            use_type_invariant(&*self);
        }
        let table_id = self.next_table_id;
        let table = Table::<R>::new(table_id, name, row_type);
        let mut tables = BTreeMap::new();
        std::mem::swap(&mut tables, &mut self.tables);
        self.next_table_id = table_id + 1;
        tables.insert(table_id, table);
        self.tables = tables;
        assert(self@.tables =~= old(self)@.insert_table(name@, row_type).tables);
        table_id
    }

    /// Removes a table with its rows; an unknown id changes nothing.
    pub fn delete_table(&mut self, table_id: u64)
        ensures
            final(self)@ == old(self)@.delete_table(table_id),
    {
        proof {
            use_type_invariant(&*self);
        }
        let mut tables = BTreeMap::new();
        std::mem::swap(&mut tables, &mut self.tables);
        tables.remove(&table_id);
        self.tables = tables;
        assert(self@.tables =~= old(self)@.delete_table(table_id).tables);
    }

    /// Stores `content` in the table `table_id` under a fresh row id, if it
    /// is of the type of that table's rows.
    pub fn insert_table_row(&mut self, table_id: u64, content: R) -> (row_id: Result<
        u64,
        &'static str,
    >)
        requires
            old(self)@.has_row_room(table_id),
        ensures
            exists|observed: u64| #[trigger]
                observes(observed, content, old(self)@.tables.contains_key(table_id)) && row_id
                    == old(self)@.insert_table_row_result(table_id, observed) && final(self)@
                    == old(self)@.insert_table_row(table_id, content, observed),
    {
        proof {
            use_type_invariant(&*self);
        }
        let mut tables = BTreeMap::new();
        std::mem::swap(&mut tables, &mut self.tables);
        let ghost mut seen: u64 = 0;
        let result = match tables.remove(&table_id) {
            Some(mut table) => {
                let ghost before = table@;
                let row_id = table.try_insert_row_any(content);
                proof {
                    seen = choose|observed: u64| #[trigger]
                        is_row_type_of(observed, content) && row_id
                            == before.insert_row_any_result(observed) && table@
                            == before.insert_row_any(content, observed);
                }
                table.validity();
                tables.insert(table_id, table);
                row_id
            },
            None => Err("Table not found"),
        };
        self.tables = tables;
        assert(self@.tables =~= old(self)@.insert_table_row(table_id, content, seen).tables);
        assert(observes(seen, content, old(self)@.tables.contains_key(table_id)));
        result
    }

    /// Removes the row at (`table_id`, `row_id`) and hands it to the caller.
    pub fn delete_table_row(&mut self, table_id: u64, row_id: u64) -> (removed: Result<
        R,
        &'static str,
    >)
        ensures
            removed == old(self)@.row(table_id, row_id),
            final(self)@ == old(self)@.delete_table_row(table_id, row_id),
    {
        proof {
            use_type_invariant(&*self);
        }
        let mut tables = BTreeMap::new();
        std::mem::swap(&mut tables, &mut self.tables);
        let result = match tables.remove(&table_id) {
            Some(mut table) => {
                let removed = table.delete_row_any(row_id);
                table.validity();
                tables.insert(table_id, table);
                match removed {
                    Some(row) => Ok(row),
                    None => Err("Row not found"),
                }
            },
            None => Err("Table not found"),
        };
        self.tables = tables;
        assert(self@.tables =~= old(self)@.delete_table_row(table_id, row_id).tables);
        result
    }

    /// Replaces the row at (`table_id`, `row_id`) by `content`, if it is of
    /// the type of that table's rows, and returns the row it replaced.
    pub fn update_table_row(&mut self, table_id: u64, row_id: u64, content: R) -> (previous:
        Result<R, &'static str>)
        ensures
            exists|observed: u64| #[trigger]
                observes(observed, content, old(self)@.tables.contains_key(table_id))
                    && previous == old(self)@.update_table_row_result(table_id, row_id, observed)
                    && final(self)@ == old(self)@.update_table_row(
                    table_id,
                    row_id,
                    content,
                    observed,
                ),
    {
        proof {
            use_type_invariant(&*self);
        }
        let mut tables = BTreeMap::new();
        std::mem::swap(&mut tables, &mut self.tables);
        let ghost mut seen: u64 = 0;
        let result = match tables.remove(&table_id) {
            Some(mut table) => {
                let ghost before = table@;
                let previous = table.try_update_row_any(row_id, content);
                proof {
                    seen = choose|observed: u64| #[trigger]
                        is_row_type_of(observed, content) && previous
                            == before.update_row_any_result(row_id, observed) && table@
                            == before.update_row_any(row_id, content, observed);
                }
                table.validity();
                tables.insert(table_id, table);
                match previous {
                    Ok(Some(row)) => Ok(row),
                    Ok(None) => Err("Row not found"),
                    Err(error) => Err(error),
                }
            },
            None => Err("Table not found"),
        };
        self.tables = tables;
        assert(self@.tables =~= old(self)@.update_table_row(
            table_id,
            row_id,
            content,
            seen,
        ).tables);
        assert(observes(seen, content, old(self)@.tables.contains_key(table_id)));
        result
    }

    /// Returns an independent copy of the row at (`table_id`, `row_id`).
    pub fn get_table_row(&self, table_id: u64, row_id: u64) -> (copy: Result<R, &'static str>) where
        R: Clone,

        ensures
            is_copy_of_row(copy, self@.row(table_id, row_id)),
    {
        match self.tables.get(&table_id) {
            Some(table) => match table.get_row_any(row_id) {
                Some(row) => Ok(row),
                None => Err("Row not found"),
            },
            None => Err("Table not found"),
        }
    }
}

} // verus!
