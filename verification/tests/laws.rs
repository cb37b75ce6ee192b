//! Concrete instances of the library's laws.

use tork_orm::cli::scaffold::truncate_slug;
use tork_orm::dialect::{Dialect, MySqlDialect, PostgresDialect, SqliteDialect};
use tork_orm::dialect::{quote_string_literal, quote_string_literal_mysql, render_expr};
use tork_orm::query::expr::Expr;
use tork_orm::persist::bulk_create_statements;
use tork_orm::preload::collect_keys;
use tork_orm::value::{same_key_exec, BindValue, FromValue, Value};
use tork_orm::migration::files::{build_chain, clone_file, parse, MigrationFile};
use tork_orm::migration::generate::{render_migration_file, SchemaChange};

#[test]
fn quoting_keeps_different_names_apart() {
    let pg = PostgresDialect::new();
    assert_ne!(pg.quoted("a\"b"), pg.quoted("a\"\"b"));
    assert_eq!(pg.quoted("a\"\"b"), "\"a\"\"\"\"b\"");
    let my = MySqlDialect::new();
    assert_ne!(my.quoted("x`"), my.quoted("x``"));
    let lite = SqliteDialect::new();
    assert_eq!(lite.quoted("t"), "\"t\"");
    let literal = |s: &str| {
        let mut out = String::new();
        quote_string_literal(s, &mut out);
        out
    };
    assert_ne!(literal("it's"), literal("it''s"));
    assert_eq!(literal("it's"), "'it''s'");
    let mut out = String::new();
    quote_string_literal_mysql("a\\'", &mut out);
    assert_eq!(out, "'a\\\\'''");
}

#[test]
fn a_rendered_migration_file_reads_back() {
    let change = SchemaChange {
        up: vec!["CREATE TABLE \"users\" (\"id\" INTEGER)".into(), "-- note: rebuild needed".into()],
        down: vec!["DROP TABLE \"users\"".into()],
    };
    let text = render_migration_file("abc123", Some("parent9"), "create_users", &change);
    let file = parse(&text, "abc123_create_users").unwrap();
    assert_eq!(file.revision, "abc123");
    assert_eq!(file.down_revision.as_deref(), Some("parent9"));
    assert_eq!(file.name, "create_users");
    assert_eq!(file.up_sql, "CREATE TABLE \"users\" (\"id\" INTEGER);\n-- note: rebuild needed\n\n");
    assert_eq!(file.down_sql.as_deref(), Some("DROP TABLE \"users\";\n"));
    assert!(file.transactional);

    let base = render_migration_file("r1", None, "empty", &SchemaChange { up: vec![], down: vec![] });
    // An empty up section reads back as a blank one, which `parse` rejects.
    let err = parse(&base, "r1_empty").unwrap_err();
    assert_eq!(err.message(), "migration `r1_empty` is missing a `-- migrate:up` section");
}

#[test]
fn renaming_a_file_keeps_its_identity() {
    let content = "-- revision: r7\n-- down_revision: r6\n-- migrate:up\nSELECT 1;\n";
    let a = parse(content, "r7_first_name").unwrap();
    let b = parse(content, "renamed").unwrap();
    assert_eq!((a.revision.as_str(), b.revision.as_str()), ("r7", "r7"));
    assert_eq!(a.down_revision, b.down_revision);
    assert_eq!(a.up_sql, b.up_sql);
    assert_eq!(a.checksum, b.checksum);
    assert_eq!((a.name.as_str(), b.name.as_str()), ("first_name", "renamed"));
}

fn migration(revision: &str, down: Option<&str>) -> MigrationFile {
    let content = format!(
        "-- revision: {revision}\n-- down_revision: {}\n-- migrate:up\nSELECT 1;\n",
        down.unwrap_or("")
    );
    parse(&content, revision).unwrap()
}

#[test]
fn the_chain_ignores_listing_order() {
    let listing = |order: &[usize]| -> Vec<String> {
        let all = [migration("a", None), migration("b", Some("a")), migration("c", Some("b"))];
        let files: Vec<MigrationFile> = order.iter().map(|i| clone_file(&all[*i])).collect();
        build_chain(files).unwrap().into_iter().map(|f| f.revision).collect()
    };
    let expected = vec!["a".to_string(), "b".to_string(), "c".to_string()];
    assert_eq!(listing(&[0, 1, 2]), expected);
    assert_eq!(listing(&[2, 0, 1]), expected);
    assert_eq!(listing(&[1, 2, 0]), expected);
}

#[test]
fn truncated_slugs_are_short_prefixes_without_trailing_underscores() {
    for max in 0..12 {
        let slug = truncate_slug("add_a_table", max);
        assert!(slug.len() <= max);
        assert!("add_a_table".starts_with(&slug));
        assert!(!slug.ends_with('_'));
    }
    assert_eq!(truncate_slug("ab_", 9), "ab");
    assert_eq!(truncate_slug("__", 9), "");
    assert_eq!(truncate_slug("é_é", 3), "é");
    assert_eq!(truncate_slug("é_é", 9), "é_é");
}

#[test]
fn snake_case_twice_is_snake_case_once() {
    for name in ["Add Orders!", "__x__Y__", "create-users", "  spaced  out  ", "", "ÄÖ plain"] {
        let once = tork_orm::cli::scaffold::snake_case(name);
        assert_eq!(tork_orm::cli::scaffold::snake_case(&once), once);
    }
}

#[test]
fn bound_values_leave_the_sql_text_alone() {
    let pg = PostgresDialect::new();
    let one = Expr::column("users", "age").eq(Value::Int(1));
    let two = Expr::column("users", "age").eq(Value::Int(2));
    let (sql_one, params_one) = render_expr(&pg, &one);
    let (sql_two, params_two) = render_expr(&pg, &two);
    assert_eq!(sql_one, sql_two);
    assert_eq!(sql_one, "\"users\".\"age\" = $1");
    assert_eq!(params_one.len(), params_two.len());
    assert_eq!(params_one.len(), 1);
    assert!(matches!(params_one[0], Value::Int(1)));
    assert!(matches!(params_two[0], Value::Int(2)));
    let lite = SqliteDialect::new();
    let listed = Expr::in_list(Expr::column("t", "id"), vec![Value::Int(7), Value::Int(8)]);
    let other = Expr::in_list(Expr::column("t", "id"), vec![Value::Int(9), Value::Int(10)]);
    assert_eq!(render_expr(&lite, &listed).0, render_expr(&lite, &other).0);
}

#[test]
fn bound_values_read_back_as_themselves() {
    assert_eq!(i64::from_value((-7i64).to_value()).unwrap(), -7);
    assert_eq!(i32::from_value(i32::MIN.to_value()).unwrap(), i32::MIN);
    assert_eq!(u32::from_value(u32::MAX.to_value()).unwrap(), u32::MAX);
    assert!(bool::from_value(true.to_value()).unwrap());
    assert_eq!(String::from_value(String::from("ok").to_value()).unwrap(), "ok");
    assert_eq!(Option::<i64>::from_value(None::<i64>.to_value()).unwrap(), None);
    assert_eq!(Option::<i64>::from_value(Some(4i64).to_value()).unwrap(), Some(4));
}

#[test]
fn bulk_create_statements_keep_every_row_in_order() {
    let rows: Vec<Vec<Value>> = (0..7).map(|i| vec![Value::Int(i), Value::Int(-i), Value::Int(2 * i)]).collect();
    let statements = bulk_create_statements("t", vec!["a", "b", "c"], rows, 7);
    let mut seen = Vec::new();
    for s in &statements {
        assert!(s.rows.len() * 3 <= 7);
        for row in &s.rows {
            if let Value::Int(i) = row[0] {
                seen.push(i);
            }
        }
    }
    assert_eq!(seen, (0..7).collect::<Vec<i64>>());
}

#[test]
fn collected_preload_keys_are_distinct() {
    let keys = collect_keys(vec![Some(Value::Int(1)), Some(Value::Int(2)), Some(Value::Int(1)), None]);
    for i in 0..keys.len() {
        for j in (i + 1)..keys.len() {
            assert!(!same_key_exec(&keys[i], &keys[j]));
        }
    }
    assert_eq!(keys.len(), 2);
}

#[test]
fn chain_errors_name_the_problem_found() {
    let file = |rev: &str, down: Option<&str>| {
        let text = match down {
            Some(d) => format!("-- revision: {rev}\n-- down_revision: {d}\n-- migrate:up\nSELECT 1;\n"),
            None => format!("-- revision: {rev}\n-- migrate:up\nSELECT 1;\n"),
        };
        parse(&text, rev).unwrap()
    };
    let message = |files: Vec<MigrationFile>| build_chain(files).unwrap_err().message().to_string();
    assert_eq!(message(vec![file("a", None), file("a", None)]), "two migrations share the revision `a`");
    assert_eq!(
        message(vec![file("a", None), file("b", None)]),
        "more than one base migration (with no `down_revision`)"
    );
    assert_eq!(
        message(vec![file("a", None), file("b", Some("zz"))]),
        "migration `b` has down_revision `zz`, which does not exist"
    );
    assert_eq!(
        message(vec![file("a", None), file("b", Some("a")), file("c", Some("a"))]),
        "branching not supported yet: two migrations follow `a`"
    );
    assert_eq!(
        message(vec![file("a", Some("b")), file("b", Some("a"))]),
        "no base migration (every migration has a `down_revision`)"
    );
}
