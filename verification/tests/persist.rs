//! The statements behind a model's write methods.

use tork_orm::dialect::{
    render_delete, render_insert, render_select, render_update, PostgresDialect, SqlType,
    SqliteDialect,
};
use tork_orm::error::ErrorKind;
use tork_orm::model::ColumnDef;
use tork_orm::persist::{
    bulk_create_statements, create_statement, expect_one, reload_by_key, reload_key, removal,
    restore_statement, rows_per_chunk, save_result, save_statement, split_pairs, update_by_key,
    upsert_reload, upsert_statement, Removal,
};
use tork_orm::value::Value;

fn column(name: &'static str, primary_key: bool) -> ColumnDef {
    ColumnDef {
        name,
        sql_type: SqlType::Text,
        primary_key,
        auto: primary_key,
        nullable: false,
        foreign_key: None,
        default: None,
    }
}

fn user_columns() -> Vec<ColumnDef> {
    vec![column("id", true), column("email", false), column("name", false)]
}

fn user_pairs() -> Vec<(&'static str, Value)> {
    vec![("email", Value::Text("a@x.io".into())), ("name", Value::Text("Ann".into()))]
}

#[test]
fn create_inserts_one_row_and_returns_every_column() {
    let statement = create_statement("users", user_pairs(), &user_columns(), true);
    let (sql, params) = render_insert(&PostgresDialect::new(), &statement);
    assert_eq!(
        sql,
        "INSERT INTO \"users\" (\"email\", \"name\") VALUES ($1, $2) RETURNING \"id\", \"email\", \"name\""
    );
    assert_eq!(params.len(), 2);
    let plain = create_statement("users", user_pairs(), &user_columns(), false);
    assert!(plain.returning.is_empty());
}

#[test]
fn a_created_row_is_reloaded_by_its_key() {
    assert!(matches!(reload_key(Value::Int(0), 7), Value::Int(7)));
    assert!(matches!(reload_key(Value::Null, 9), Value::Int(9)));
    assert!(matches!(reload_key(Value::Text("k".into()), 9), Value::Text(t) if t == "k"));
    let select = reload_by_key("users", &user_columns(), "id", Value::Int(7));
    let (sql, _) = render_select(&SqliteDialect::new(), &select);
    assert_eq!(
        sql,
        "SELECT \"users\".\"id\", \"users\".\"email\", \"users\".\"name\" FROM \"users\" WHERE \"users\".\"id\" = ? LIMIT 1"
    );
}

#[test]
fn bulk_create_splits_rows_under_the_parameter_ceiling() {
    assert_eq!(rows_per_chunk(999, 2), 499);
    assert_eq!(rows_per_chunk(999, 0), 999);
    assert_eq!(rows_per_chunk(3, 5), 1);
    let rows: Vec<Vec<Value>> = (0..5).map(|i| vec![Value::Int(i), Value::Int(i * 10)]).collect();
    let statements = bulk_create_statements("t", vec!["a", "b"], rows, 4);
    let sizes: Vec<usize> = statements.iter().map(|s| s.rows.len()).collect();
    assert_eq!(sizes, vec![2, 2, 1]);
    assert!(matches!(statements[2].rows[0][0], Value::Int(4)));
    assert!(bulk_create_statements("t", vec!["a"], Vec::new(), 10).is_empty());
}

#[test]
fn upsert_updates_every_column_outside_the_target() {
    let statement = upsert_statement("users", user_pairs(), &["email"], &user_columns(), false);
    let (sql, _) = render_insert(&SqliteDialect::new(), &statement);
    assert_eq!(
        sql,
        "INSERT INTO \"users\" (\"email\", \"name\") VALUES (?, ?) ON CONFLICT (\"email\") DO UPDATE SET \"name\" = EXCLUDED.\"name\""
    );
    let reload = upsert_reload("users", &user_columns(), &["email", "missing"], &user_pairs());
    assert_eq!(reload.filters.len(), 1);
    assert_eq!(reload.limit, Some(1));
    let (_, params) = render_select(&SqliteDialect::new(), &reload);
    assert!(matches!(&params[0], Value::Text(t) if t == "a@x.io"));
}

#[test]
fn save_touches_updated_at_and_checks_the_version() {
    let pairs = vec![
        ("name", Value::Text("Ann".into())),
        ("updated_at", Value::Text("old".into())),
        ("version", Value::Int(3)),
    ];
    let statement = save_statement(
        "users",
        "id",
        Value::Int(1),
        pairs,
        Some("updated_at"),
        Some(("version", Value::Int(3))),
    );
    let (sql, params) = render_update(&SqliteDialect::new(), &statement);
    assert_eq!(
        sql,
        "UPDATE \"users\" SET \"name\" = ?, \"updated_at\" = CURRENT_TIMESTAMP, \"version\" = \"users\".\"version\" + ? WHERE \"users\".\"id\" = ? AND \"users\".\"version\" = ?"
    );
    assert_eq!(params.len(), 4);
    let plain = save_statement("users", "id", Value::Int(1), user_pairs(), None, None);
    assert_eq!(plain.assignments.len(), 2);
    assert_eq!(plain.filters.len(), 1);
}

#[test]
fn a_versioned_save_that_changed_nothing_is_a_conflict() {
    let error = save_result("users", true, 0).unwrap_err();
    assert_eq!(error.kind(), ErrorKind::Conflict);
    assert_eq!(
        error.message(),
        "optimistic lock failed for `users`: the row was modified or removed by another transaction"
    );
    assert_eq!(save_result("users", true, 1).unwrap(), 1);
    assert_eq!(save_result("users", false, 0).unwrap(), 0);
}

#[test]
fn delete_soft_deletes_when_the_model_has_a_deleted_at_column() {
    match removal("posts", "id", Value::Int(4), Some("deleted_at")) {
        Removal::Stamp(update) => {
            let (sql, _) = render_update(&SqliteDialect::new(), &update);
            assert_eq!(
                sql,
                "UPDATE \"posts\" SET \"deleted_at\" = CURRENT_TIMESTAMP WHERE \"posts\".\"id\" = ?"
            );
        }
        Removal::Delete(_) => panic!("expected a soft delete"),
    }
    match removal("posts", "id", Value::Int(4), None) {
        Removal::Delete(delete) => {
            let (sql, _) = render_delete(&SqliteDialect::new(), &delete);
            assert_eq!(sql, "DELETE FROM \"posts\" WHERE \"posts\".\"id\" = ?");
        }
        Removal::Stamp(_) => panic!("expected a delete"),
    }
    assert!(restore_statement("posts", "id", Value::Int(4), None).is_none());
    let restore = restore_statement("posts", "id", Value::Int(4), Some("deleted_at")).unwrap();
    let (sql, _) = render_update(&SqliteDialect::new(), &restore);
    assert_eq!(sql, "UPDATE \"posts\" SET \"deleted_at\" = ? WHERE \"posts\".\"id\" = ?");
}

#[test]
fn update_or_create_writes_the_found_row() {
    let statement = update_by_key("users", "id", Value::Int(2), user_pairs());
    let (sql, _) = render_update(&SqliteDialect::new(), &statement);
    assert_eq!(sql, "UPDATE \"users\" SET \"email\" = ?, \"name\" = ? WHERE \"users\".\"id\" = ?");
}

#[test]
fn one_row_is_expected_exactly() {
    assert!(expect_one("users", 1).is_ok());
    let none = expect_one("users", 0).unwrap_err();
    assert_eq!(none.kind(), ErrorKind::NotFound);
    assert_eq!(none.message(), "no row in `users` matched the query");
    let many = expect_one("users", 2).unwrap_err();
    assert_eq!(many.kind(), ErrorKind::MultipleFound);
    assert_eq!(many.message(), "more than one row in `users` matched the query");
    let (columns, values) = split_pairs(user_pairs());
    assert_eq!(columns, vec!["email", "name"]);
    assert_eq!(values.len(), 2);
}
