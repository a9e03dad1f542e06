//! Tables: ordered stores of rows of one fixed type, keyed by row ids that a
//! private counter hands out and never hands out twice. The type of a
//! table's rows is fixed when the table is made; a value of another type is
//! not to be handed in, and is turned away where the caller asks for that.

use std::collections::BTreeMap;
use vstd::prelude::*;

verus! {

/// What a table is, as a mathematical value.
#[verifier::ext_equal]
pub struct TableState<T> {
    pub id: u64,
    pub name: Seq<char>,
    /// The type of the rows that the table takes.
    pub row_type: u64,
    pub rows: Map<u64, T>,
    pub next_row_id: nat,
}

impl<T> TableState<T> {
    /// Every stored row sits below the counter, and the counter fits a `u64`.
    pub open spec fn wf(self) -> bool {
        &&& self.next_row_id <= u64::MAX
        &&& forall|row_id: u64| self.rows.contains_key(row_id) ==> row_id < self.next_row_id
    }

    pub open spec fn empty(id: u64, name: Seq<char>, row_type: u64) -> Self {
        TableState { id, name, row_type, rows: Map::empty(), next_row_id: 0 }
    }

    /// The id that the next insertion assigns.
    pub open spec fn fresh_row_id(self) -> u64 {
        self.next_row_id as u64
    }

    /// Whether the counter can still hand out an id.
    pub open spec fn has_room(self) -> bool {
        self.next_row_id < u64::MAX
    }

    pub open spec fn insert_row(self, content: T) -> Self {
        TableState {
            rows: self.rows.insert(self.fresh_row_id(), content),
            next_row_id: self.next_row_id + 1,
            ..self
        }
    }

    pub open spec fn delete_row(self, row_id: u64) -> Self {
        TableState { rows: self.rows.remove(row_id), ..self }
    }

    /// Replaces a stored row; an absent id changes nothing.
    pub open spec fn update_row(self, row_id: u64, content: T) -> Self {
        if self.rows.contains_key(row_id) {
            TableState { rows: self.rows.insert(row_id, content), ..self }
        } else {
            self
        }
    }

    /// The row stored under `row_id`, if any.
    pub open spec fn row(self, row_id: u64) -> Option<T> {
        if self.rows.contains_key(row_id) {
            Some(self.rows[row_id])
        } else {
            None
        }
    }

    /// What handing in a value of type `observed` for insertion returns:
    /// the fresh row id, or that the type is not the table's.
    pub open spec fn insert_row_any_result(self, observed: u64) -> Result<u64, &'static str> {
        if observed == self.row_type {
            Ok(self.fresh_row_id())
        } else {
            Err(wrong_type())
        }
    }

    /// The table after `content`, a value of type `observed`, was handed in
    /// for insertion.
    pub open spec fn insert_row_any(self, content: T, observed: u64) -> Self {
        if observed == self.row_type {
            self.insert_row(content)
        } else {
            self
        }
    }

    /// What handing in a value of type `observed` to replace the row
    /// `row_id` returns: the row it replaced, if there was one, or that the
    /// type is not the table's.
    pub open spec fn update_row_any_result(self, row_id: u64, observed: u64) -> Result<
        Option<T>,
        &'static str,
    > {
        if observed == self.row_type {
            Ok(self.row(row_id))
        } else {
            Err(wrong_type())
        }
    }

    /// The table after `content`, a value of type `observed`, was handed in
    /// to replace the row `row_id`.
    pub open spec fn update_row_any(self, row_id: u64, content: T, observed: u64) -> Self {
        if observed == self.row_type {
            self.update_row(row_id, content)
        } else {
            self
        }
    }
}

/// The error of handing a table a value that is not of its rows' type.
pub open spec fn wrong_type() -> &'static str {
    "Wrong type !"
}

/// A value that can be stored as a row. It tells of which type of row it
/// is, so that one kind of value can fill tables of different types.
pub trait Row {
    fn row_type(&self) -> u64;
}

/// Whether `row_type` is what `content` gives as its type when asked.
pub open spec fn is_row_type_of<R: Row>(row_type: u64, content: R) -> bool {
    call_ensures(R::row_type, (&content,), row_type)
}

/// Whether `observed` can stand for the type of `content` in an operation:
/// where the operation asks `content` for its type, it is what `content`
/// gave; where it does not get that far, any type will do.
pub open spec fn observes<R: Row>(observed: u64, content: R, asked: bool) -> bool {
    asked ==> is_row_type_of(observed, content)
}

/// One change to a table, as it is asked for: a value is handed in with the
/// type that it gave when asked, or a row is deleted.
pub enum RowOp<T> {
    Insert(T, u64),
    Update(u64, T, u64),
    Delete(u64),
}

impl<T> TableState<T> {
    /// The table after `op`. An insertion into a table whose counter is
    /// used up cannot be asked for and changes nothing.
    pub open spec fn apply(self, op: RowOp<T>) -> Self {
        match op {
            RowOp::Insert(content, observed) => if self.has_room() {
                self.insert_row_any(content, observed)
            } else {
                self
            },
            RowOp::Update(row_id, content, observed) => self.update_row_any(
                row_id,
                content,
                observed,
            ),
            RowOp::Delete(row_id) => self.delete_row(row_id),
        }
    }

    /// The table after the first `n` of `ops`, applied in turn.
    pub open spec fn apply_first(self, ops: Seq<RowOp<T>>, n: int) -> Self
        decreases n,
    {
        if n <= 0 {
            self
        } else {
            self.apply_first(ops, n - 1).apply(ops[n - 1])
        }
    }
}

/// Whatever is done to a table, it stays well formed, its counter never
/// goes back, and the type of its rows stays what it was made with.
pub proof fn lemma_counter_never_goes_back<T>(table: TableState<T>, ops: Seq<RowOp<T>>, n: int)
    requires
        table.wf(),
        0 <= n <= ops.len(),
    ensures
        table.apply_first(ops, n).wf(),
        table.apply_first(ops, n).row_type == table.row_type,
        table.next_row_id <= table.apply_first(ops, n).next_row_id,
        forall|m: int|
            0 <= m <= n ==> (#[trigger] table.apply_first(ops, m)).next_row_id
                <= table.apply_first(ops, n).next_row_id,
    decreases n,
{
    if n > 0 {
        lemma_counter_never_goes_back(table, ops, n - 1);
    }
}

/// Row ids are never reused: a row id that is in use at some time, whether
/// or not its row is deleted later, differs from every id that an insertion
/// hands out from then on.
pub proof fn lemma_row_ids_never_reused<T>(
    table: TableState<T>,
    ops: Seq<RowOp<T>>,
    earlier: int,
    later: int,
    row_id: u64,
)
    requires
        table.wf(),
        0 <= earlier <= later <= ops.len(),
        table.apply_first(ops, earlier).rows.contains_key(row_id),
        table.apply_first(ops, later).has_room(),
    ensures
        row_id < table.apply_first(ops, later).fresh_row_id(),
{
    lemma_counter_never_goes_back(table, ops, later);
    lemma_counter_never_goes_back(table, ops, earlier);
}

/// Row ids strictly increase: of two insertions, the later one hands out
/// the larger id.
pub proof fn lemma_row_ids_increase<T>(
    table: TableState<T>,
    ops: Seq<RowOp<T>>,
    earlier: int,
    later: int,
)
    requires
        table.wf(),
        0 <= earlier < later < ops.len(),
        ops[earlier] matches RowOp::Insert(_, observed) && observed == table.row_type,
        ops[later] is Insert,
        table.apply_first(ops, later).has_room(),
    ensures
        table.apply_first(ops, earlier).fresh_row_id() < table.apply_first(
            ops,
            later,
        ).fresh_row_id(),
{
    lemma_counter_never_goes_back(table, ops, later);
    lemma_counter_never_goes_back(table, ops, earlier);
    assert(table.apply_first(ops, earlier + 1) == table.apply_first(ops, earlier).apply(
        ops[earlier],
    ));
}

/// A row of the table's type that was inserted is found under the id it
/// was given. Once it is updated, the update returns the row that was
/// inserted and the new row is found in its place.
pub proof fn lemma_insert_update_get<T>(table: TableState<T>, first: T, second: T)
    ensures
        ({
            let row_id = table.fresh_row_id();
            let inserted = table.insert_row_any(first, table.row_type);
            let updated = inserted.update_row_any(row_id, second, table.row_type);
            &&& table.insert_row_any_result(table.row_type) == Ok::<u64, &'static str>(row_id)
            &&& inserted.row(row_id) == Some(first)
            &&& inserted.update_row_any_result(row_id, table.row_type) == Ok::<
                Option<T>,
                &'static str,
            >(Some(first))
            &&& updated.row(row_id) == Some(second)
            &&& updated.next_row_id == inserted.next_row_id
        }),
{
}

/// A value of another type than the table's rows is turned away, and the
/// table is left as it was.
pub proof fn lemma_wrong_type_is_turned_away<T>(
    table: TableState<T>,
    row_id: u64,
    content: T,
    observed: u64,
)
    requires
        observed != table.row_type,
    ensures
        table.insert_row_any_result(observed) == Err::<u64, &'static str>(wrong_type()),
        table.update_row_any_result(row_id, observed) == Err::<Option<T>, &'static str>(
            wrong_type(),
        ),
        table.insert_row_any(content, observed) == table,
        table.update_row_any(row_id, content, observed) == table,
{
}

/// Whether every row of the table is of the type that the table was made
/// for.
pub open spec fn holds_its_type<T: Row>(table: TableState<T>) -> bool {
    forall|row_id: u64| #[trigger]
        table.rows.contains_key(row_id) ==> is_row_type_of(table.row_type, table.rows[row_id])
}

/// Whether the value that `op` hands in, if any, gave the type that `op`
/// records for it.
pub open spec fn is_truthful<T: Row>(op: RowOp<T>) -> bool {
    match op {
        RowOp::Insert(content, observed) => is_row_type_of(observed, content),
        RowOp::Update(_, content, observed) => is_row_type_of(observed, content),
        RowOp::Delete(_) => true,
    }
}

/// The type of a table's rows is fixed for the table's life: a table whose
/// rows are all of its type stays so, whatever is handed in.
pub proof fn lemma_rows_keep_the_table_type<T: Row>(
    table: TableState<T>,
    ops: Seq<RowOp<T>>,
    n: int,
)
    requires
        holds_its_type(table),
        0 <= n <= ops.len(),
        forall|i: int| 0 <= i < n ==> is_truthful(#[trigger] ops[i]),
    ensures
        holds_its_type(table.apply_first(ops, n)),
        table.apply_first(ops, n).row_type == table.row_type,
    decreases n,
{
    if n > 0 {
        lemma_rows_keep_the_table_type(table, ops, n - 1);
        assert(is_truthful(ops[n - 1]));
    }
}

/// A deleted row is gone: deleting it again finds nothing and changes
/// nothing.
pub proof fn lemma_delete_row_twice<T>(table: TableState<T>, row_id: u64)
    ensures
        table.delete_row(row_id).row(row_id) is None,
        table.delete_row(row_id).delete_row(row_id) == table.delete_row(row_id),
{
    assert(table.delete_row(row_id).delete_row(row_id).rows =~= table.delete_row(row_id).rows);
}

/// Whether `copy` may be what a lookup hands out for the stored `row`:
/// an absent row gives nothing, a stored row gives a clone of itself.
pub open spec fn is_copy_of<T: Clone>(copy: Option<T>, row: Option<T>) -> bool {
    match (copy, row) {
        (Some(c), Some(r)) => cloned(r, c),
        (None, None) => true,
        _ => false,
    }
}

/// A descriptive snapshot of a table; it never holds row contents.
#[derive(Clone, Debug)]
pub struct TableInfos {
    pub id: u64,
    pub name: String,
}

/// Whether `content` is of the type `row_type`: asked for its type, it
/// gives no other.
pub open spec fn is_of_type<R: Row>(content: R, row_type: u64) -> bool {
    forall|observed: u64| #[trigger] is_row_type_of(observed, content) ==> observed == row_type
}

/// The uniform interface of a table: it takes values of the kind `R`, and
/// stores those that are of the type of its rows. A value of another type
/// is a defect of the caller: `insert_row_any` and `update_row_any` are not
/// to be called with one, and `try_insert_row_any` and `try_update_row_any`
/// turn it away.
pub trait TableBase<R: Row> {
    spec fn state(&self) -> TableState<R>;

    fn insert_row_any(&mut self, content: R) -> (row_id: u64)
        requires
            old(self).state().has_room(),
            is_of_type(content, old(self).state().row_type),
        ensures
            row_id == old(self).state().fresh_row_id(),
            final(self).state() == old(self).state().insert_row(content),
    ;

    fn try_insert_row_any(&mut self, content: R) -> (row_id: Result<u64, &'static str>)
        requires
            old(self).state().has_room(),
        ensures
            exists|observed: u64| #[trigger]
                is_row_type_of(observed, content) && row_id == old(
                    self,
                ).state().insert_row_any_result(observed) && final(self).state() == old(
                    self,
                ).state().insert_row_any(content, observed),
    ;

    fn delete_row_any(&mut self, row_id: u64) -> (removed: Option<R>)
        ensures
            removed == old(self).state().row(row_id),
            final(self).state() == old(self).state().delete_row(row_id),
    ;

    fn update_row_any(&mut self, row_id: u64, content: R) -> (previous: Option<R>)
        requires
            is_of_type(content, old(self).state().row_type),
        ensures
            previous == old(self).state().row(row_id),
            final(self).state() == old(self).state().update_row(row_id, content),
    ;

    fn try_update_row_any(&mut self, row_id: u64, content: R) -> (previous: Result<
        Option<R>,
        &'static str,
    >)
        ensures
            exists|observed: u64| #[trigger]
                is_row_type_of(observed, content) && previous == old(
                    self,
                ).state().update_row_any_result(row_id, observed) && final(self).state() == old(
                    self,
                ).state().update_row_any(row_id, content, observed),
    ;

    fn get_row_any(&self, row_id: u64) -> (copy: Option<R>) where R: Clone
        ensures
            is_copy_of(copy, self.state().row(row_id)),
    ;

    fn get_infos(&self) -> (infos: TableInfos)
        ensures
            infos.id == self.state().id,
            infos.name@ == self.state().name,
    ;
}

/// An ordered store of rows of one type, held as values of the kind `T`.
pub struct Table<T> {
    id: u64,
    name: String,
    row_type: u64,
    rows: BTreeMap<u64, T>,
    next_row_id: u64,
}

impl<T> View for Table<T> {
    type V = TableState<T>;

    closed spec fn view(&self) -> TableState<T> {
        TableState {
            id: self.id,
            name: self.name@,
            row_type: self.row_type,
            rows: self.rows@,
            next_row_id: self.next_row_id as nat,
        }
    }
}

impl<T> Table<T> {
    #[verifier::type_invariant]
    spec fn inv(self) -> bool {
        forall|row_id: u64| self.rows@.contains_key(row_id) ==> row_id < self.next_row_id
    }

    /// A table without rows, for rows of the type `row_type`. Its first
    /// row will get the id 0.
    pub fn new(id: u64, name: String, row_type: u64) -> (table: Self)
        ensures
            table@ == TableState::<T>::empty(id, name@, row_type),
    {
        Self { id, name, row_type, rows: BTreeMap::new(), next_row_id: 0 }
    }

    /// The type of the rows that the table takes.
    pub fn row_type(&self) -> (row_type: u64)
        ensures
            row_type == self@.row_type,
    {
        self.row_type
    }

    /// States what holds of every table: its state is well formed.
    pub fn validity(&self)
        ensures
            self@.wf(),
    {
        proof {
            use_type_invariant(self);
        }
    }

    pub fn id(&self) -> (id: u64)
        ensures
            id == self@.id,
    {
        self.id
    }

    pub fn name(&self) -> (name: &String)
        ensures
            name@ == self@.name,
    {
        &self.name
    }

    /// The id that the next inserted row receives.
    pub fn next_row_id(&self) -> (next: u64)
        ensures
            next == self@.next_row_id,
    {
        self.next_row_id
    }

    /// Whether the table can take one more row.
    pub fn has_room(&self) -> (room: bool)
        ensures
            room == self@.has_room(),
    {
        self.next_row_id < u64::MAX
    }

    /// Stores `content` under a fresh row id and returns that id, without
    /// asking for its type.
    fn store_row(&mut self, content: T) -> (row_id: u64)
        requires
            old(self)@.has_room(),
        ensures
            row_id == old(self)@.fresh_row_id(),
            final(self)@ == old(self)@.insert_row(content),
    {
        proof {
            use_type_invariant(&*self);
        }
        let row_id = self.next_row_id;
        let mut rows = BTreeMap::new();
        std::mem::swap(&mut rows, &mut self.rows);
        self.next_row_id = row_id + 1;
        rows.insert(row_id, content);
        self.rows = rows;
        row_id
    }

    /// Removes the row under `row_id` and hands it to the caller.
    pub fn delete_row(&mut self, row_id: u64) -> (removed: Option<T>)
        ensures
            removed == old(self)@.row(row_id),
            final(self)@ == old(self)@.delete_row(row_id),
    {
        proof {
            use_type_invariant(&*self);
        }
        let mut rows = BTreeMap::new();
        std::mem::swap(&mut rows, &mut self.rows);
        let removed = rows.remove(&row_id);
        self.rows = rows;
        removed
    }

    /// Replaces the row under `row_id` by `content`, without asking for its
    /// type, and returns the row it replaced. An id that holds no row is
    /// left without one.
    fn replace_row(&mut self, row_id: u64, content: T) -> (previous: Option<T>)
        ensures
            previous == old(self)@.row(row_id),
            final(self)@ == old(self)@.update_row(row_id, content),
    {
        proof {
            use_type_invariant(&*self);
        }
        if !self.rows.contains_key(&row_id) {
            return None;
        }
        let mut rows = BTreeMap::new();
        std::mem::swap(&mut rows, &mut self.rows);
        let previous = rows.insert(row_id, content);
        self.rows = rows;
        previous
    }

    /// Returns an independent copy of the row under `row_id`.
    pub fn get_row(&self, row_id: u64) -> (copy: Option<T>) where T: Clone
        ensures
            is_copy_of(copy, self@.row(row_id)),
    {
        match self.rows.get(&row_id) {
            Some(row) => Some(row.clone()),
            None => None,
        }
    }
}

impl<T: Row> Table<T> {
    /// Stores `content`, a value of the table's type, under a fresh row id
    /// and returns that id.
    pub fn insert_row(&mut self, content: T) -> (row_id: u64)
        requires
            old(self)@.has_room(),
            is_of_type(content, old(self)@.row_type),
        ensures
            row_id == old(self)@.fresh_row_id(),
            final(self)@ == old(self)@.insert_row(content),
    {
        self.store_row(content)
    }

    /// Replaces the row under `row_id` by `content`, a value of the table's
    /// type, and returns the row it replaced. An id that holds no row is
    /// left without one.
    pub fn update_row(&mut self, row_id: u64, content: T) -> (previous: Option<T>)
        requires
            is_of_type(content, old(self)@.row_type),
        ensures
            previous == old(self)@.row(row_id),
            final(self)@ == old(self)@.update_row(row_id, content),
    {
        self.replace_row(row_id, content)
    }
}

impl<T: Row> TableBase<T> for Table<T> {
    open spec fn state(&self) -> TableState<T> {
        self@
    }

    fn insert_row_any(&mut self, content: T) -> (row_id: u64) {
        self.insert_row(content)
    }

    fn try_insert_row_any(&mut self, content: T) -> (row_id: Result<u64, &'static str>) {
        let observed = content.row_type();
        assert(is_row_type_of(observed, content));
        if observed != self.row_type {
            return Err("Wrong type !");
        }
        Ok(self.store_row(content))
    }

    fn delete_row_any(&mut self, row_id: u64) -> (removed: Option<T>) {
        self.delete_row(row_id)
    }

    fn update_row_any(&mut self, row_id: u64, content: T) -> (previous: Option<T>) {
        self.update_row(row_id, content)
    }

    fn try_update_row_any(&mut self, row_id: u64, content: T) -> (previous: Result<
        Option<T>,
        &'static str,
    >) {
        let observed = content.row_type();
        assert(is_row_type_of(observed, content));
        if observed != self.row_type {
            return Err("Wrong type !");
        }
        Ok(self.replace_row(row_id, content))
    }

    fn get_row_any(&self, row_id: u64) -> (copy: Option<T>) where T: Clone {
        self.get_row(row_id)
    }

    fn get_infos(&self) -> (infos: TableInfos) {
        TableInfos { id: self.id, name: self.name.clone() }
    }
}

} // verus!
