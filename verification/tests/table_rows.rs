use spacetime_os::table::{Row, Table, TableBase};

#[derive(Clone, Debug, PartialEq)]
enum Value {
    Record { x: i64 },
    Note(String),
}

impl Row for Value {
    fn row_type(&self) -> u64 {
        match self {
            Value::Record { .. } => 0,
            Value::Note(_) => 1,
        }
    }
}

fn record(x: i64) -> Value {
    Value::Record { x }
}

#[test]
fn insert_then_get_then_update() {
    let mut table: Table<Value> = Table::new(0, "records".to_string(), 0);
    assert_eq!(table.insert_row_any(record(1)), 0);
    assert_eq!(table.get_row_any(0), Some(record(1)));
    assert_eq!(table.update_row_any(0, record(2)), Some(record(1)));
    assert_eq!(table.get_row_any(0), Some(record(2)));
}

#[test]
fn update_of_absent_row_inserts_nothing() {
    let mut table: Table<Value> = Table::new(3, "records".to_string(), 0);
    assert_eq!(table.update_row_any(5, record(9)), None);
    assert_eq!(table.try_update_row_any(5, record(9)), Ok(None));
    assert_eq!(table.get_row_any(5), None);
    assert_eq!(table.next_row_id(), 0);
    assert!(table.has_room());
}

#[test]
fn row_ids_are_not_reused_after_delete() {
    let mut table: Table<Value> = Table::new(0, "records".to_string(), 0);
    assert_eq!(table.insert_row_any(record(1)), 0);
    assert_eq!(table.try_insert_row_any(record(2)), Ok(1));
    assert_eq!(table.delete_row_any(1), Some(record(2)));
    assert_eq!(table.delete_row_any(1), None);
    assert_eq!(table.insert_row_any(record(3)), 2);
    assert_eq!(table.get_row_any(1), None);
    let infos = table.get_infos();
    assert_eq!(infos.id, 0);
    assert_eq!(infos.name, "records");
}

#[test]
fn value_of_another_type_is_turned_away() {
    let mut records: Table<Value> = Table::new(0, "records".to_string(), 0);
    let mut notes: Table<Value> = Table::new(1, "notes".to_string(), 1);
    assert_eq!(records.row_type(), 0);
    assert_eq!(notes.row_type(), 1);
    assert_eq!(records.try_insert_row_any(Value::Note("n".to_string())), Err("Wrong type !"));
    assert_eq!(records.next_row_id(), 0);
    assert_eq!(notes.try_insert_row_any(Value::Note("n".to_string())), Ok(0));
    assert_eq!(notes.try_insert_row_any(record(1)), Err("Wrong type !"));
    assert_eq!(notes.try_update_row_any(0, record(1)), Err("Wrong type !"));
    assert_eq!(notes.try_update_row_any(7, record(1)), Err("Wrong type !"));
    assert_eq!(notes.get_row_any(0), Some(Value::Note("n".to_string())));
    assert_eq!(
        notes.try_update_row_any(0, Value::Note("m".to_string())),
        Ok(Some(Value::Note("n".to_string())))
    );
    assert_eq!(notes.update_row_any(0, Value::Note("o".to_string())), Some(Value::Note("m".to_string())));
}

#[test]
fn typed_operations_of_a_table() {
    let mut table: Table<Value> = Table::new(0, "records".to_string(), 0);
    assert_eq!(table.insert_row(record(1)), 0);
    assert_eq!(table.insert_row(record(2)), 1);
    assert_eq!(table.get_row(1), Some(record(2)));
    assert_eq!(table.update_row(1, record(3)), Some(record(2)));
    assert_eq!(table.get_row(1), Some(record(3)));
    assert_eq!(table.update_row(4, record(3)), None);
    assert_eq!(table.get_row(4), None);
    assert_eq!(table.delete_row(0), Some(record(1)));
    assert_eq!(table.delete_row(0), None);
    assert_eq!(table.insert_row(record(5)), 2);
}

