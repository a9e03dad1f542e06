use spacetime_os::module::AccessLevel;
use spacetime_os::reducer::{BoxedJob, ReducerContext, ReducerJob};
use spacetime_os::spacetime_core::SpacetimeCore;
use spacetime_os::table::Row;

#[derive(Clone, Debug, PartialEq)]
struct Record {
    kind: u64,
    x: i64,
}

impl Row for Record {
    fn row_type(&self) -> u64 {
        self.kind
    }
}

fn record(x: i64) -> Record {
    Record { kind: 0, x }
}

struct Idle;

struct StartIdle;

impl ReducerJob<Idle> for StartIdle {
    fn start(&self, _ctx: ReducerContext) -> Idle {
        Idle
    }
}

fn job() -> BoxedJob<Idle> {
    BoxedJob { job: Box::new(StartIdle) }
}

fn registry() -> SpacetimeCore<Record, Idle, BoxedJob<Idle>> {
    SpacetimeCore::new()
}

#[test]
fn scenario_insert_get_update_get() {
    let mut core = registry();
    let module_id = core.insert_module("A".to_string(), AccessLevel::Standard);
    let table_id = core.insert_table(module_id, "records".to_string(), 0).unwrap();
    assert_eq!(core.insert_table_row(module_id, table_id, record(1)), Ok(0));
    assert_eq!(core.get_table_row(module_id, table_id, 0), Ok(record(1)));
    assert_eq!(
        core.update_table_row(module_id, table_id, 0, record(2)),
        Ok(record(1))
    );
    assert_eq!(core.get_table_row(module_id, table_id, 0), Ok(record(2)));
}

#[test]
fn scenario_module_infos_across_modules() {
    let mut core = registry();
    let sys = core.insert_module("Sys".to_string(), AccessLevel::Admin);
    let a = core.insert_module("A".to_string(), AccessLevel::Standard);
    let from_a = ReducerContext::new(a, 0, AccessLevel::Standard);
    let from_sys = ReducerContext::new(sys, 0, AccessLevel::Admin);
    assert_eq!(from_a.get_module_infos(&core, sys).err(), Some("You do not have access"));
    let infos = from_sys.get_module_infos(&core, a).unwrap();
    assert_eq!(infos.id, a);
    assert_eq!(infos.name, "A");
    assert_eq!(infos.access_level, AccessLevel::Standard);
    let own = from_a.get_module_infos(&core, a).unwrap();
    assert_eq!(own.name, "A");
}

#[test]
fn module_ids_increase_across_deletions() {
    let mut core = registry();
    assert_eq!(core.insert_module("a".to_string(), AccessLevel::Standard), 0);
    assert_eq!(core.insert_module("b".to_string(), AccessLevel::Standard), 1);
    core.delete_module(1);
    assert_eq!(core.insert_module("c".to_string(), AccessLevel::Admin), 2);
    assert_eq!(core.next_module_id(), 3);
    assert_eq!(core.get_modules_id(), vec![0, 2]);
}

#[test]
fn delete_module_twice_is_a_no_op() {
    let mut core = registry();
    let module_id = core.insert_module("a".to_string(), AccessLevel::Standard);
    let other = core.insert_module("b".to_string(), AccessLevel::Standard);
    core.delete_module(module_id);
    assert_eq!(core.get_modules_id(), vec![other]);
    core.delete_module(module_id);
    assert_eq!(core.get_modules_id(), vec![other]);
    assert_eq!(core.get_module_infos(module_id).err(), Some("Module not found"));
}

#[test]
fn unknown_module_is_an_error() {
    let mut core = registry();
    assert_eq!(core.insert_reducer(3, "r".to_string(), job()), Err("Module not found"));
    assert_eq!(core.insert_table(3, "t".to_string(), 0), Err("Module not found"));
    assert_eq!(core.insert_table_row(3, 0, record(1)), Err("Module not found"));
    assert_eq!(core.update_table_row(3, 0, 0, record(1)), Err("Module not found"));
    assert_eq!(core.delete_table_row(3, 0, 0), Err("Module not found"));
    assert_eq!(core.get_table_row(3, 0, 0), Err("Module not found"));
    core.delete_reducer(3, 0);
    core.delete_table(3, 0);
    assert!(core.get_modules_id().is_empty());
}

#[test]
fn unknown_table_and_row_are_errors() {
    let mut core = registry();
    let module_id = core.insert_module("a".to_string(), AccessLevel::Standard);
    assert_eq!(core.insert_table_row(module_id, 0, record(1)), Err("Table not found"));
    let table_id = core.insert_table(module_id, "t".to_string(), 0).unwrap();
    assert_eq!(core.get_table_row(module_id, table_id, 0), Err("Row not found"));
    assert_eq!(core.update_table_row(module_id, table_id, 0, record(1)), Err("Row not found"));
    assert_eq!(core.get_table_row(module_id, table_id, 0), Err("Row not found"));
}

#[test]
fn delete_table_row_returns_last_stored_value_once() {
    let mut core = registry();
    let module_id = core.insert_module("a".to_string(), AccessLevel::Standard);
    let table_id = core.insert_table(module_id, "t".to_string(), 0).unwrap();
    let row_id = core.insert_table_row(module_id, table_id, record(1)).unwrap();
    core.update_table_row(module_id, table_id, row_id, record(2)).unwrap();
    core.update_table_row(module_id, table_id, row_id, record(3)).unwrap();
    assert_eq!(core.delete_table_row(module_id, table_id, row_id), Ok(record(3)));
    assert_eq!(core.delete_table_row(module_id, table_id, row_id), Err("Row not found"));
    assert_eq!(core.insert_table_row(module_id, table_id, record(4)), Ok(1));
}

#[test]
fn deleted_table_takes_its_rows_along() {
    let mut core = registry();
    let module_id = core.insert_module("a".to_string(), AccessLevel::Standard);
    let table_id = core.insert_table(module_id, "t".to_string(), 0).unwrap();
    core.insert_table_row(module_id, table_id, record(1)).unwrap();
    core.delete_table(module_id, table_id);
    assert_eq!(core.get_table_row(module_id, table_id, 0), Err("Table not found"));
    assert_eq!(core.insert_table(module_id, "t".to_string(), 0), Ok(1));
}

#[test]
fn standard_context_is_confined_to_its_module() {
    let mut core = registry();
    let own = core.insert_module("own".to_string(), AccessLevel::Standard);
    let other = core.insert_module("other".to_string(), AccessLevel::Standard);
    let other_table = core.insert_table(other, "t".to_string(), 0).unwrap();
    core.insert_table_row(other, other_table, record(1)).unwrap();
    let ctx = ReducerContext::new(own, 0, AccessLevel::Standard);
    let denied = "You do not have access";
    assert_eq!(ctx.insert_reducer(&mut core, other, "r".to_string(), job()), Err(denied));
    assert_eq!(ctx.insert_table(&mut core, other, "t".to_string(), 0), Err(denied));
    assert_eq!(ctx.insert_table_row(&mut core, other, other_table, record(2)), Err(denied));
    assert_eq!(ctx.update_table_row(&mut core, other, other_table, 0, record(2)), Err(denied));
    assert_eq!(ctx.delete_table_row(&mut core, other, other_table, 0), Err(denied));
    assert_eq!(ctx.get_table_row(&core, other, other_table, 0), Err(denied));
    assert_eq!(ctx.get_module_infos(&core, other).err(), Some(denied));
    assert_eq!(ctx.get_modules_id(&core), Err(denied));
    assert_eq!(ctx.insert_module(&mut core, "m".to_string(), AccessLevel::Standard), Err(denied));
    assert_eq!(core.get_table_row(other, other_table, 0), Ok(record(1)));
    assert_eq!(core.get_modules_id(), vec![own, other]);
    assert!(core.get_module_infos(other).unwrap().reducers.is_empty());
}

#[test]
fn standard_context_acts_on_its_own_module() {
    let mut core = registry();
    let own = core.insert_module("own".to_string(), AccessLevel::Standard);
    let ctx = ReducerContext::new(own, 0, AccessLevel::Standard);
    assert_eq!(ctx.insert_reducer(&mut core, own, "r".to_string(), job()), Ok(0));
    let table_id = ctx.insert_table(&mut core, own, "t".to_string(), 0).unwrap();
    assert_eq!(ctx.insert_table_row(&mut core, own, table_id, record(1)), Ok(0));
    assert_eq!(ctx.get_table_row(&core, own, table_id, 0), Ok(record(1)));
    assert_eq!(ctx.update_table_row(&mut core, own, table_id, 0, record(2)), Ok(record(1)));
    assert_eq!(ctx.delete_table_row(&mut core, own, table_id, 0), Ok(record(2)));
    assert_eq!(ctx.delete_table_row(&mut core, own, table_id, 0), Err("Row not found"));
}

#[test]
fn admin_context_acts_on_any_module() {
    let mut core = registry();
    let sys = core.insert_module("sys".to_string(), AccessLevel::Admin);
    let other = core.insert_module("other".to_string(), AccessLevel::Standard);
    let ctx = ReducerContext::new(sys, 0, AccessLevel::Admin);
    assert_eq!(ctx.insert_reducer(&mut core, other, "r".to_string(), job()), Ok(0));
    let table_id = ctx.insert_table(&mut core, other, "t".to_string(), 0).unwrap();
    assert_eq!(ctx.insert_table_row(&mut core, other, table_id, record(1)), Ok(0));
    assert_eq!(ctx.get_table_row(&core, other, table_id, 0), Ok(record(1)));
    assert_eq!(ctx.update_table_row(&mut core, other, table_id, 0, record(2)), Ok(record(1)));
    assert_eq!(ctx.delete_table_row(&mut core, other, table_id, 0), Ok(record(2)));
    assert_eq!(ctx.get_modules_id(&core), Ok(vec![sys, other]));
    assert_eq!(ctx.insert_module(&mut core, "new".to_string(), AccessLevel::Standard), Ok(()));
    assert_eq!(ctx.get_modules_id(&core), Ok(vec![0, 1, 2]));
    assert_eq!(ctx.get_module_infos(&core, 9).err(), Some("Module not found"));
    assert_eq!(ctx.insert_table(&mut core, 9, "t".to_string(), 0), Err("Module not found"));
}

#[test]
fn each_table_has_its_own_row_type() {
    let mut core = registry();
    let module_id = core.insert_module("a".to_string(), AccessLevel::Standard);
    let plain = core.insert_table(module_id, "plain".to_string(), 0).unwrap();
    let other = core.insert_table(module_id, "other".to_string(), 4).unwrap();
    let odd = Record { kind: 4, x: 7 };
    assert_eq!(core.insert_table_row(module_id, plain, odd.clone()), Err("Wrong type !"));
    assert_eq!(core.insert_table_row(module_id, other, odd.clone()), Ok(0));
    assert_eq!(core.insert_table_row(module_id, other, record(1)), Err("Wrong type !"));
    assert_eq!(core.insert_table_row(module_id, plain, record(1)), Ok(0));
    assert_eq!(core.update_table_row(module_id, plain, 0, odd.clone()), Err("Wrong type !"));
    assert_eq!(core.update_table_row(module_id, plain, 9, odd.clone()), Err("Wrong type !"));
    assert_eq!(core.update_table_row(module_id, other, 9, odd.clone()), Err("Row not found"));
    assert_eq!(core.get_table_row(module_id, plain, 0), Ok(record(1)));
    assert_eq!(core.get_table_row(module_id, other, 0), Ok(odd.clone()));
    let ctx = ReducerContext::new(module_id, 0, AccessLevel::Standard);
    assert_eq!(ctx.insert_table_row(&mut core, module_id, plain, odd.clone()), Err("Wrong type !"));
    assert_eq!(ctx.update_table_row(&mut core, module_id, other, 0, record(2)), Err("Wrong type !"));
    assert_eq!(ctx.update_table_row(&mut core, module_id, other, 0, odd.clone()), Ok(odd));
}

#[test]
fn context_of_a_reducer_call() {
    let mut core = registry();
    let sys = core.insert_module("Sys".to_string(), AccessLevel::Admin);
    let a = core.insert_module("A".to_string(), AccessLevel::Standard);
    core.insert_reducer(sys, "r0".to_string(), job()).unwrap();
    let reducer_id = core.insert_reducer(sys, "r1".to_string(), job()).unwrap();
    let ctx = core.reducer_context(sys, reducer_id).unwrap();
    assert_eq!(ctx.module_id, sys);
    assert_eq!(ctx.reducer_id, 1);
    assert_eq!(ctx.access_level, AccessLevel::Admin);
    assert!(core.reducer_context(a, 0).is_none());
    assert!(core.reducer_context(sys, 2).is_none());
    assert!(core.reducer_context(9, 0).is_none());
    let own = core.insert_reducer(a, "r".to_string(), job()).unwrap();
    let ctx = core.reducer_context(a, own).unwrap();
    assert_eq!((ctx.module_id, ctx.reducer_id, ctx.access_level), (a, 0, AccessLevel::Standard));
}

#[test]
fn registry_with_jobs_of_one_make() {
    let mut core: SpacetimeCore<Record, Idle, StartIdle> = SpacetimeCore::new();
    let module_id = core.insert_module("a".to_string(), AccessLevel::Standard);
    assert_eq!(core.insert_reducer(module_id, "r".to_string(), StartIdle), Ok(0));
    assert_eq!(core.insert_reducer(7, "r".to_string(), StartIdle), Err("Module not found"));
    core.call_reducer(module_id, 0);
    assert!(core.executor().is_parked(0));
    assert_eq!(core.executor().ready_len(), 1);
    let infos = core.get_module_infos(module_id).unwrap();
    assert_eq!(infos.reducers.len(), 1);
    assert_eq!(infos.reducers[0].name, "r");
}

