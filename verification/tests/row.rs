//! Result rows.

use tork_orm::error::ErrorKind;
use tork_orm::row::Row;
use tork_orm::value::Value;

fn sample() -> Row {
    Row::new(
        vec!["id".to_string(), "name".to_string()],
        vec![Value::Int(1), Value::Text("alice".to_string())],
    )
}

#[test]
fn columns_are_read_by_name_and_index() {
    let row = sample();
    assert_eq!(row.get::<i64>("id").unwrap(), 1);
    assert_eq!(row.get::<String>("name").unwrap(), "alice");
    assert!(matches!(row.get::<Value>("id"), Ok(Value::Int(1))));
    assert_eq!(row.index_of("name"), Some(1));
    assert_eq!(row.index_of("missing"), None);
    assert_eq!(row.len(), 2);
    assert!(!row.is_empty());
    assert!(matches!(row.value_at(0), Some(Value::Int(1))));
    assert!(row.value_at(2).is_none());
    assert_eq!(row.columns(), vec!["id".to_string(), "name".to_string()]);
}

#[test]
fn a_missing_column_or_index_is_a_conversion_error() {
    let row = sample();
    let missing = row.get::<i64>("email").unwrap_err();
    assert_eq!(missing.kind(), ErrorKind::Conversion);
    assert_eq!(missing.message(), "no column named `email` in row");
    let out_of_range = row.get_index::<i64>(5).unwrap_err();
    assert_eq!(out_of_range.kind(), ErrorKind::Conversion);
    assert_eq!(out_of_range.message(), "column index 5 out of range");
    let reused = Row::with_columns(row.columns(), vec![Value::Int(2)]);
    assert!(reused.get::<String>("name").is_err());
    assert!(row.get::<i64>("name").is_err());
    assert!(Row::new(Vec::new(), Vec::new()).is_empty());
}
