//! Preloading related rows.

use tork_orm::dialect::{render_expr, SqliteDialect};
use tork_orm::preload::{
    collect_keys, group_rows, key_chunks, keys_filter, preload_chunk_size,
};
use tork_orm::query::ast::JoinKind;
use tork_orm::relation::{Relation, RelationKind};
use tork_orm::value::{same_key_exec, Value};

struct User;
struct Post;

#[test]
fn keys_are_collected_once_each_in_parent_order() {
    let keys = collect_keys(vec![
        Some(Value::Int(3)),
        None,
        Some(Value::Int(1)),
        Some(Value::Int(3)),
        Some(Value::Text("1".into())),
    ]);
    assert_eq!(keys.len(), 3);
    assert!(matches!(keys[0], Value::Int(3)));
    assert!(matches!(keys[1], Value::Int(1)));
    assert!(matches!(&keys[2], Value::Text(t) if t == "1"));
    assert!(collect_keys(Vec::new()).is_empty());
}

#[test]
fn keys_are_split_under_the_parameter_ceiling() {
    assert_eq!(preload_chunk_size(999), 983);
    assert_eq!(preload_chunk_size(16), 1);
    assert_eq!(preload_chunk_size(0), 1);
    let chunks = key_chunks((0..5).map(Value::Int).collect(), 2);
    let sizes: Vec<usize> = chunks.iter().map(|c| c.len()).collect();
    assert_eq!(sizes, vec![2, 2, 1]);
    let (sql, params) = render_expr(&SqliteDialect::new(), &keys_filter("posts", "user_id", vec![Value::Int(1), Value::Int(2)]));
    assert_eq!(sql, "\"posts\".\"user_id\" IN (?, ?)");
    assert_eq!(params.len(), 2);
}

#[test]
fn related_rows_are_stitched_onto_their_parents() {
    let parents = vec![Some(Value::Int(1)), Some(Value::Int(2)), None, Some(Value::Int(1))];
    let rows = vec![Value::Int(2), Value::Int(1), Value::Int(1), Value::Int(9)];
    let groups = group_rows(&parents, &rows);
    assert_eq!(groups, vec![vec![1, 2], vec![0], vec![], vec![1, 2]]);
    assert!(same_key_exec(&Value::Array(vec![Value::Int(1)]), &Value::Array(vec![Value::Int(1)])));
    assert!(!same_key_exec(&Value::Int(1), &Value::Text("1".into())));
}

#[test]
fn relations_describe_their_join() {
    let posts: Relation<User, Post> = Relation::has_many("users", "id", "posts", "user_id");
    assert_eq!(posts.kind(), RelationKind::HasMany);
    assert_eq!(posts.target_table(), "posts");
    assert_eq!(posts.from_column(), "id");
    assert_eq!(posts.to_column(), "user_id");
    let join = posts.join_node();
    assert_eq!(join.kind, JoinKind::Inner);
    assert_eq!((join.left_table, join.left_column), ("users", "id"));
    assert_eq!((join.right_table, join.right_column), ("posts", "user_id"));
    assert_eq!(posts.join_node_with_kind(JoinKind::Left).kind, JoinKind::Left);
    let author: Relation<Post, User> = Relation::belongs_to("posts", "user_id", "users", "id")
        .filter(tork_orm::query::expr::Expr::column("users", "active"));
    assert_eq!(author.kind(), RelationKind::BelongsTo);
    assert_eq!(author.preload_filters().len(), 1);
    assert!(author.preload_order_by().is_empty());
}
