//! What a model's write methods send to the database, and how they read the
//! answers.
//!
//! Creating, saving, upserting and deleting an instance each build a statement
//! from the instance's column values and the model's metadata (its table, its
//! columns, its primary key and its optional `updated_at`, soft-delete and
//! version columns), run it, and decide on the rows or the count that came back.
//! The statements and the decisions are here; running them belongs to the
//! connection.

use vstd::prelude::*;

use crate::error::{ErrorKind, OrmError};
use crate::model::ColumnDef;
use crate::query::ast::{SelectItem, SelectStatement};
use crate::query::expr::{BinaryOp, Expr};
use crate::query::write::{Assignment, DeleteStatement, InsertStatement, OnConflict, UpdateStatement};
use crate::text::{owned, push_str, str_eq};
use crate::value::{same_value, Value};

verus! {

/// The column names of an instance's `(column, value)` pairs, in order.
pub open spec fn pair_columns(pairs: Seq<(&'static str, Value)>) -> Seq<&'static str> {
    pairs.map_values(|p: (&'static str, Value)| p.0)
}

/// The values of an instance's `(column, value)` pairs, in order.
pub open spec fn pair_values(pairs: Seq<(&'static str, Value)>) -> Seq<Value> {
    pairs.map_values(|p: (&'static str, Value)| p.1)
}

/// The names of a model's columns, in declaration order.
pub open spec fn column_names(columns: Seq<ColumnDef>) -> Seq<&'static str> {
    columns.map_values(|c: ColumnDef| c.name)
}

/// Splits an instance's `(column, value)` pairs into the column list and the row
/// of values.
pub fn split_pairs(pairs: Vec<(&'static str, Value)>) -> (r: (Vec<&'static str>, Vec<Value>))
    ensures
        r.0@ == pair_columns(pairs@),
        r.1@ == pair_values(pairs@),
{
    let ghost all = pairs@;
    let mut rest = pairs;
    let mut columns: Vec<&'static str> = Vec::new();
    let mut values: Vec<Value> = Vec::new();
    while rest.len() > 0
        invariant
            columns@.len() == values@.len(),
            columns@.len() + rest@.len() == all.len(),
            rest@ == all.subrange(columns@.len() as int, all.len() as int),
            columns@ == pair_columns(all.take(columns@.len() as int)),
            values@ == pair_values(all.take(columns@.len() as int)),
        decreases rest@.len(),
    {
        let ghost n = columns@.len();
        let (column, value) = rest.remove(0);
        columns.push(column);
        values.push(value);
        assert(all.take(n + 1 as int) == all.take(n as int).push(all[n as int]));
    }
    assert(all.take(columns@.len() as int) == all);
    (columns, values)
}

/// The names of a model's columns.
pub fn names_of(columns: &Vec<ColumnDef>) -> (r: Vec<&'static str>)
    ensures
        r@ == column_names(columns@),
{
    let mut r: Vec<&'static str> = Vec::new();
    let mut i: usize = 0;
    while i < columns.len()
        invariant
            i <= columns@.len(),
            r@ == column_names(columns@.take(i as int)),
        decreases columns@.len() - i,
    {
        assert(columns@.take(i + 1) == columns@.take(i as int).push(columns@[i as int]));
        r.push(columns[i].name);
        i = i + 1;
    }
    assert(columns@.take(i as int) == columns@);
    r
}

/// The columns a write returns: every model column where the backend has
/// `RETURNING`, none where it re-selects the row instead.
pub open spec fn returned_columns(columns: Seq<ColumnDef>, supports_returning: bool) -> Seq<&'static str> {
    if supports_returning {
        column_names(columns)
    } else {
        seq![]
    }
}

/// The `INSERT` that creates an instance: its column values as one row, returning
/// every model column where the backend has `RETURNING`.
pub fn create_statement(
    table: &'static str,
    pairs: Vec<(&'static str, Value)>,
    columns: &Vec<ColumnDef>,
    supports_returning: bool,
) -> (s: InsertStatement)
    ensures
        s.table == table,
        s.columns@ == pair_columns(pairs@),
        s.rows@.len() == 1,
        s.rows@[0]@ == pair_values(pairs@),
        s.returning@ == returned_columns(columns@, supports_returning),
        s.on_conflict is Abort,
{
    let (names, row) = split_pairs(pairs);
    let returning = if supports_returning {
        names_of(columns)
    } else {
        Vec::new()
    };
    InsertStatement { table, columns: names, rows: vec![row], returning, on_conflict: OnConflict::Abort }
}

/// The `primary_key = <value>` predicate.
pub fn primary_key_filter(table: &'static str, primary_key: &'static str, value: Value) -> (e: Expr)
    ensures
        e == key_filter(table, primary_key, value),
{
    Expr::binary(Expr::column(table, primary_key), BinaryOp::Eq, Expr::value(value))
}

/// `table.column = value`.
pub open spec fn key_filter(table: &'static str, column: &'static str, value: Value) -> Expr {
    Expr::Binary {
        left: Box::new(Expr::Column { table, column }),
        op: BinaryOp::Eq,
        right: Box::new(Expr::Value(value)),
    }
}

/// The key a created row is reloaded by on a backend without `RETURNING`: a text
/// or UUID primary key is the application's own value; any other is the row id
/// the database assigned.
pub fn reload_key(primary_key_value: Value, last_insert_rowid: i64) -> (v: Value)
    ensures
        v == (match primary_key_value {
            Value::Text(_) | Value::Uuid(_) => primary_key_value,
            _ => Value::Int(last_insert_rowid),
        }),
{
    match primary_key_value {
        Value::Text(t) => Value::Text(t),
        Value::Uuid(u) => Value::Uuid(u),
        _ => Value::Int(last_insert_rowid),
    }
}

/// The projection of every model column, qualified by the table.
pub open spec fn all_columns(table: &'static str, columns: Seq<ColumnDef>) -> Seq<SelectItem> {
    columns.map_values(|c: ColumnDef| SelectItem::Column { table, column: c.name })
}

/// Selects every model column of `table`.
pub fn select_all_columns(table: &'static str, columns: &Vec<ColumnDef>) -> (r: Vec<SelectItem>)
    ensures
        r@ == all_columns(table, columns@),
{
    let mut r: Vec<SelectItem> = Vec::new();
    let mut i: usize = 0;
    while i < columns.len()
        invariant
            i <= columns@.len(),
            r@ == all_columns(table, columns@.take(i as int)),
        decreases columns@.len() - i,
    {
        assert(columns@.take(i + 1) == columns@.take(i as int).push(columns@[i as int]));
        r.push(SelectItem::Column { table, column: columns[i].name });
        i = i + 1;
    }
    assert(columns@.take(i as int) == columns@);
    r
}

/// Whether `s` selects every model column of `table`, restricted by `filters`
/// alone, with `LIMIT 1` and no other clause.
pub open spec fn reloads_by(s: SelectStatement, table: &'static str, columns: Seq<ColumnDef>, filters: Seq<Expr>) -> bool {
    &&& s.with is None
    &&& s.table == table
    &&& s.projection@ == all_columns(table, columns)
    &&& s.joins@.len() == 0
    &&& s.filters@ == filters
    &&& s.group_by@.len() == 0
    &&& s.having is None
    &&& s.order_by@.len() == 0
    &&& s.limit == Some(1u64)
    &&& s.offset is None
    &&& !s.distinct
    &&& s.distinct_on@.len() == 0
    &&& s.lock is None
}

/// The `SELECT` that reloads a created row by its key on a backend without
/// `RETURNING`.
pub fn reload_by_key(table: &'static str, columns: &Vec<ColumnDef>, primary_key: &'static str, key: Value) -> (s: SelectStatement)
    ensures
        reloads_by(s, table, columns@, seq![key_filter(table, primary_key, key)]),
{
    let ghost k = key;
    let mut select = SelectStatement::new(table, select_all_columns(table, columns));
    let filter = primary_key_filter(table, primary_key, key);
    select.filters.push(filter);
    select.limit = Some(1);
    assert(select.filters@ == seq![key_filter(table, primary_key, k)]);
    select
}

/// How many rows one `INSERT` of a bulk create carries: as many as the backend's
/// bind-parameter ceiling allows for the columns written, and at least one.
pub open spec fn chunk_rows(max_bind_params: nat, column_count: nat) -> nat {
    let per = max_bind_params / (if column_count == 0 { 1 } else { column_count });
    if per == 0 {
        1
    } else {
        per
    }
}

/// The number of rows per `INSERT` of a bulk create.
pub fn rows_per_chunk(max_bind_params: usize, column_count: usize) -> (n: usize)
    ensures
        n == chunk_rows(max_bind_params as nat, column_count as nat),
        n >= 1,
{
    let divisor = if column_count == 0 { 1 } else { column_count };
    let per = max_bind_params / divisor;
    if per == 0 {
        1
    } else {
        per
    }
}

/// The rows of a sequence of inserts, one statement after another.
pub open spec fn inserted_rows(statements: Seq<InsertStatement>) -> Seq<Vec<Value>>
    decreases statements.len(),
{
    if statements.len() == 0 {
        seq![]
    } else {
        inserted_rows(statements.drop_last()) + statements.last().rows@
    }
}

/// A copy of a list of column names.
pub fn copy_names(names: &Vec<&'static str>) -> (r: Vec<&'static str>)
    ensures
        r@ == names@,
{
    let mut r: Vec<&'static str> = Vec::new();
    let mut i: usize = 0;
    while i < names.len()
        invariant
            i <= names@.len(),
            r@ == names@.take(i as int),
        decreases names@.len() - i,
    {
        r.push(names[i]);
        i = i + 1;
        assert(r@ == names@.take(i as int));
    }
    assert(names@.take(i as int) == names@);
    r
}

/// Whether `s` is one `INSERT` of a bulk create into `table`: the shared columns,
/// between one and `per` rows, no `RETURNING` and no conflict clause.
pub open spec fn bulk_chunk(s: InsertStatement, table: &'static str, columns: Seq<&'static str>, per: nat) -> bool {
    &&& s.table == table
    &&& s.columns@ == columns
    &&& 1 <= s.rows@.len() <= per
    &&& s.returning@.len() == 0
    &&& s.on_conflict is Abort
}

/// The inserts of a bulk create: the rows, in order, split into statements of
/// [`rows_per_chunk`] rows each (the last one possibly shorter), so that no
/// statement binds more parameters than the backend allows. No rows, no
/// statements.
pub fn bulk_create_statements(
    table: &'static str,
    columns: Vec<&'static str>,
    rows: Vec<Vec<Value>>,
    max_bind_params: usize,
) -> (r: Vec<InsertStatement>)
    ensures
        inserted_rows(r@) == rows@,
        forall|i: int|
            0 <= i < r@.len() ==> bulk_chunk(
                #[trigger] r@[i],
                table,
                columns@,
                chunk_rows(max_bind_params as nat, columns@.len()),
            ),
        forall|i: int|
            0 <= i < r@.len() - 1 ==> (#[trigger] r@[i]).rows@.len() == chunk_rows(
                max_bind_params as nat,
                columns@.len(),
            ),
{
    let per = rows_per_chunk(max_bind_params, columns.len());
    let ghost all = rows@;
    let mut rest = rows;
    let mut out: Vec<InsertStatement> = Vec::new();
    let mut current: Vec<Vec<Value>> = Vec::new();
    while rest.len() > 0
        invariant
            per >= 1,
            per == chunk_rows(max_bind_params as nat, columns@.len()),
            current@.len() < per,
            inserted_rows(out@) + current@ + rest@ == all,
            forall|i: int| 0 <= i < out@.len() ==> bulk_chunk(#[trigger] out@[i], table, columns@, per as nat),
            forall|i: int| 0 <= i < out@.len() ==> (#[trigger] out@[i]).rows@.len() == per,
        decreases rest@.len(),
    {
        let ghost before = inserted_rows(out@) + current@ + rest@;
        let row = rest.remove(0);
        current.push(row);
        assert(inserted_rows(out@) + current@ + rest@ == before);
        if current.len() == per {
            let chunk = current;
            current = Vec::new();
            let statement = InsertStatement {
                table,
                columns: copy_names(&columns),
                rows: chunk,
                returning: Vec::new(),
                on_conflict: OnConflict::Abort,
            };
            let ghost prev = out@;
            out.push(statement);
            assert(out@.drop_last() == prev);
            assert(inserted_rows(out@) == inserted_rows(prev) + statement.rows@);
        }
    }
    if current.len() > 0 {
        let statement = InsertStatement {
            table,
            columns: copy_names(&columns),
            rows: current,
            returning: Vec::new(),
            on_conflict: OnConflict::Abort,
        };
        let ghost prev = out@;
        out.push(statement);
        assert(out@.drop_last() == prev);
        assert(inserted_rows(out@) == inserted_rows(prev) + statement.rows@);
    }
    out
}

/// A bulk create's statements stay within the backend's bind-parameter ceiling:
/// where the ceiling holds at least one row's worth of parameters, a statement
/// of at most [`chunk_rows`] rows binds no more parameters than the ceiling.
pub proof fn lemma_bulk_chunks_fit(max_bind_params: nat, column_count: nat, rows: nat)
    requires
        1 <= column_count <= max_bind_params,
        rows <= chunk_rows(max_bind_params, column_count),
    ensures
        rows * column_count <= max_bind_params,
{
    let per = max_bind_params / column_count;
    assert(per >= 1) by (nonlinear_arith)
        requires
            1 <= column_count <= max_bind_params,
            per == max_bind_params / column_count,
    ;
    assert(rows * column_count <= per * column_count) by (nonlinear_arith)
        requires
            rows <= per,
    ;
    assert(per * column_count <= max_bind_params) by (nonlinear_arith)
        requires
            1 <= column_count,
            per == max_bind_params / column_count,
    ;
}

/// The assignments that write each of an instance's column values.
pub open spec fn value_assignments(pairs: Seq<(&'static str, Value)>) -> Seq<Assignment> {
    pairs.map_values(|p: (&'static str, Value)| Assignment { column: p.0, value: Expr::Value(p.1) })
}

/// The assignments, without those to the column named `column`.
pub open spec fn without_column(a: Seq<Assignment>, column: &'static str) -> Seq<Assignment>
    decreases a.len(),
{
    if a.len() == 0 {
        seq![]
    } else if a.last().column@ == column@ {
        without_column(a.drop_last(), column)
    } else {
        without_column(a.drop_last(), column).push(a.last())
    }
}

/// Whether `e` is the database's current time, `CURRENT_TIMESTAMP`.
pub open spec fn is_current_timestamp(e: Expr) -> bool {
    e matches Expr::Raw { sql, params } && sql@ == "CURRENT_TIMESTAMP"@ && params@.len() == 0
}

/// `table.column + 1`.
pub open spec fn bumped(table: &'static str, column: &'static str) -> Expr {
    Expr::Binary {
        left: Box::new(Expr::Column { table, column }),
        op: BinaryOp::Add,
        right: Box::new(Expr::Value(Value::Int(1))),
    }
}

/// The assignments of a `save`: every column value; then the `updated_at` column,
/// if the model has one, set to `stamp` in place of its value; then the version
/// column, if the instance is versioned, set to its stored value plus one in
/// place of its value.
pub open spec fn save_assignments(
    table: &'static str,
    pairs: Seq<(&'static str, Value)>,
    updated_at: Option<&'static str>,
    version: Option<&'static str>,
    stamp: Expr,
) -> Seq<Assignment> {
    let base = value_assignments(pairs);
    let touched = match updated_at {
        Some(c) => without_column(base, c).push(Assignment { column: c, value: stamp }),
        None => base,
    };
    match version {
        Some(v) => without_column(touched, v).push(Assignment { column: v, value: bumped(table, v) }),
        None => touched,
    }
}

/// The predicates of a `save`: the primary key, and the stored version where the
/// instance is versioned.
pub open spec fn save_filters(
    table: &'static str,
    primary_key: &'static str,
    key: Value,
    version: Option<(&'static str, Value)>,
) -> Seq<Expr> {
    match version {
        Some(v) => seq![key_filter(table, primary_key, key), key_filter(table, v.0, v.1)],
        None => seq![key_filter(table, primary_key, key)],
    }
}

/// Assignments writing each column value.
pub fn assignments_of(pairs: Vec<(&'static str, Value)>) -> (r: Vec<Assignment>)
    ensures
        r@ == value_assignments(pairs@),
{
    let ghost all = pairs@;
    let mut rest = pairs;
    let mut out: Vec<Assignment> = Vec::new();
    while rest.len() > 0
        invariant
            out@.len() + rest@.len() == all.len(),
            rest@ == all.subrange(out@.len() as int, all.len() as int),
            out@ == value_assignments(all.take(out@.len() as int)),
        decreases rest@.len(),
    {
        let ghost n = out@.len();
        let (column, value) = rest.remove(0);
        out.push(Assignment::new(column, Expr::value(value)));
        assert(all.take(n + 1 as int) == all.take(n as int).push(all[n as int]));
    }
    assert(all.take(out@.len() as int) == all);
    out
}

/// The assignments without those to `column`, in order.
pub fn drop_column(assignments: Vec<Assignment>, column: &'static str) -> (r: Vec<Assignment>)
    ensures
        r@ == without_column(assignments@, column),
{
    let ghost all = assignments@;
    assert(all.len() == assignments.len());
    let mut rest = assignments;
    let mut out: Vec<Assignment> = Vec::new();
    let mut i: usize = 0;
    while rest.len() > 0
        invariant
            i + rest@.len() == all.len(),
            all.len() <= usize::MAX,
            rest@ == all.subrange(i as int, all.len() as int),
            out@ == without_column(all.take(i as int), column),
        decreases rest@.len(),
    {
        let a = rest.remove(0);
        assert(all.take(i + 1 as int).drop_last() == all.take(i as int));
        assert(all.take(i + 1 as int).last() == a);
        if !str_eq(a.column, column) {
            out.push(a);
        }
        i = i + 1;
    }
    assert(all.take(i as int) == all);
    out
}

/// The `UPDATE` of a `save`: every column value written to the row with the
/// instance's primary key; the `updated_at` column, if any, set to the database's
/// current time instead; and, for a versioned instance, only the row whose version
/// still matches, with its version bumped.
pub fn save_statement(
    table: &'static str,
    primary_key: &'static str,
    key: Value,
    pairs: Vec<(&'static str, Value)>,
    updated_at: Option<&'static str>,
    version: Option<(&'static str, Value)>,
) -> (s: UpdateStatement)
    ensures
        s.table == table,
        exists|stamp: Expr|
            is_current_timestamp(stamp) && s.assignments@ == save_assignments(
                table,
                pairs@,
                updated_at,
                match version {
                    Some(v) => Some(v.0),
                    None => None,
                },
                stamp,
            ),
        s.filters@ == save_filters(table, primary_key, key, version),
        s.returning@.len() == 0,
{
    let ghost pairs0 = pairs@;
    let ghost version0 = version;
    let ghost key0 = key;
    let mut assignments = assignments_of(pairs);
    let stamp = Expr::raw(owned("CURRENT_TIMESTAMP"));
    let ghost stamp0 = stamp;
    proof {
        reveal_strlit("CURRENT_TIMESTAMP");
    }
    if let Some(column) = updated_at {
        assignments = drop_column(assignments, column);
        assignments.push(Assignment::new(column, stamp));
    }
    let mut filters: Vec<Expr> = Vec::new();
    filters.push(primary_key_filter(table, primary_key, key));
    if let Some((column, current)) = version {
        filters.push(primary_key_filter(table, column, current));
        assignments = drop_column(assignments, column);
        let bump = Expr::binary(Expr::column(table, column), BinaryOp::Add, Expr::value(Value::Int(1)));
        assignments.push(Assignment::new(column, bump));
    }
    assert(is_current_timestamp(stamp0));
    assert(assignments@ == save_assignments(
        table,
        pairs0,
        updated_at,
        match version0 {
            Some(v) => Some(v.0),
            None => None,
        },
        stamp0,
    ));
    assert(filters@ == save_filters(table, primary_key, key0, version0));
    UpdateStatement { table, assignments, filters, returning: Vec::new() }
}

/// The message of a failed optimistic lock.
pub open spec fn lock_failed_message(table: Seq<char>) -> Seq<char> {
    "optimistic lock failed for `"@ + table
        + "`: the row was modified or removed by another transaction"@
}

/// What a `save` answers once its `UPDATE` changed `changed` rows: for a
/// versioned model, no row changed means the row was modified or removed
/// concurrently, a conflict; otherwise the count.
pub fn save_result(table: &str, versioned: bool, changed: u64) -> (r: Result<u64, OrmError>)
    ensures
        versioned && changed == 0 ==> (r matches Err(e) && e.spec_kind() == ErrorKind::Conflict
            && e.spec_message() == lock_failed_message(table@)),
        !(versioned && changed == 0) ==> r == Ok::<u64, OrmError>(changed),
{
    if versioned && changed == 0 {
        let mut message = owned("optimistic lock failed for `");
        push_str(&mut message, table);
        push_str(&mut message, "`: the row was modified or removed by another transaction");
        Err(OrmError::conflict(message.as_str()))
    } else {
        Ok(changed)
    }
}

/// Whether `name` is one of `names` (compared by their text).
pub open spec fn names_contain(names: Seq<&'static str>, name: &'static str) -> bool {
    exists|i: int| 0 <= i < names.len() && (#[trigger] names[i])@ == name@
}

/// Whether `name` is one of `names`.
pub fn contains_name(names: &[&'static str], name: &'static str) -> (b: bool)
    ensures
        b == names_contain(names@, name),
{
    let mut i: usize = 0;
    while i < names.len()
        invariant
            i <= names@.len(),
            forall|j: int| 0 <= j < i ==> (#[trigger] names@[j])@ != name@,
        decreases names@.len() - i,
    {
        if str_eq(names[i], name) {
            return true;
        }
        i = i + 1;
    }
    false
}

/// The update clause of an upsert: every inserted column outside the conflict
/// target, set to the value the insert would have written (`EXCLUDED.column`).
pub open spec fn excluded_updates(columns: Seq<&'static str>, target: Seq<&'static str>) -> Seq<Assignment>
    decreases columns.len(),
{
    if columns.len() == 0 {
        seq![]
    } else if names_contain(target, columns.last()) {
        excluded_updates(columns.drop_last(), target)
    } else {
        excluded_updates(columns.drop_last(), target).push(
            Assignment { column: columns.last(), value: Expr::Excluded(columns.last()) },
        )
    }
}

/// The `INSERT ... ON CONFLICT (target) DO UPDATE` of an upsert: the instance's
/// column values as one row; on a collision with the conflict target, every other
/// inserted column takes the inserted value; every model column returned where the
/// backend has `RETURNING`.
pub fn upsert_statement(
    table: &'static str,
    pairs: Vec<(&'static str, Value)>,
    conflict_target: &[&'static str],
    columns: &Vec<ColumnDef>,
    supports_returning: bool,
) -> (s: InsertStatement)
    ensures
        s.table == table,
        s.columns@ == pair_columns(pairs@),
        s.rows@.len() == 1,
        s.rows@[0]@ == pair_values(pairs@),
        s.returning@ == returned_columns(columns@, supports_returning),
        s.on_conflict matches OnConflict::Update { constraint, updates } && constraint@
            == conflict_target@ && updates@ == excluded_updates(pair_columns(pairs@), conflict_target@),
{
    let (names, row) = split_pairs(pairs);
    let mut updates: Vec<Assignment> = Vec::new();
    let mut i: usize = 0;
    while i < names.len()
        invariant
            i <= names@.len(),
            updates@ == excluded_updates(names@.take(i as int), conflict_target@),
        decreases names@.len() - i,
    {
        assert(names@.take(i + 1 as int).drop_last() == names@.take(i as int));
        if !contains_name(conflict_target, names[i]) {
            updates.push(Assignment::new(names[i], Expr::excluded(names[i])));
        }
        i = i + 1;
    }
    assert(names@.take(i as int) == names@);
    let mut constraint: Vec<&'static str> = Vec::new();
    let mut j: usize = 0;
    while j < conflict_target.len()
        invariant
            j <= conflict_target@.len(),
            constraint@ == conflict_target@.take(j as int),
        decreases conflict_target@.len() - j,
    {
        constraint.push(conflict_target[j]);
        j = j + 1;
        assert(constraint@ == conflict_target@.take(j as int));
    }
    assert(conflict_target@.take(j as int) == conflict_target@);
    let returning = if supports_returning {
        names_of(columns)
    } else {
        Vec::new()
    };
    InsertStatement {
        table,
        columns: names,
        rows: vec![row],
        returning,
        on_conflict: OnConflict::Update { constraint, updates },
    }
}

/// The value of the first pair named `name`, if any.
pub open spec fn lookup(pairs: Seq<(&'static str, Value)>, name: &'static str) -> Option<Value>
    decreases pairs.len(),
{
    if pairs.len() == 0 {
        None
    } else if pairs[0].0@ == name@ {
        Some(pairs[0].1)
    } else {
        lookup(pairs.drop_first(), name)
    }
}

/// The conflict-target columns that have a value among the pairs, each with the
/// first such value, in the target's order.
pub open spec fn target_keys(target: Seq<&'static str>, pairs: Seq<(&'static str, Value)>) -> Seq<(&'static str, Value)>
    decreases target.len(),
{
    if target.len() == 0 {
        seq![]
    } else {
        match lookup(pairs, target.last()) {
            Some(v) => target_keys(target.drop_last(), pairs).push((target.last(), v)),
            None => target_keys(target.drop_last(), pairs),
        }
    }
}

/// Whether `e` is `table.column = w` for a copy `w` of `v`.
pub open spec fn tests_key(e: Expr, table: &'static str, column: &'static str, v: Value) -> bool {
    match e {
        Expr::Binary { left, op, right } => *left == (Expr::Column { table, column }) && op
            == BinaryOp::Eq && match *right {
            Expr::Value(w) => same_value(w, v),
            _ => false,
        },
        _ => false,
    }
}

/// Whether `filters` test each key column against a copy of its value.
pub open spec fn filters_match(filters: Seq<Expr>, table: &'static str, keys: Seq<(&'static str, Value)>) -> bool {
    &&& filters.len() == keys.len()
    &&& forall|i: int| 0 <= i < keys.len() ==> tests_key(#[trigger] filters[i], table, keys[i].0, keys[i].1)
}

/// The value of the first pair named `name`.
pub fn find_value(pairs: &Vec<(&'static str, Value)>, name: &'static str) -> (r: Option<Value>)
    ensures
        match lookup(pairs@, name) {
            Some(v) => r matches Some(w) && same_value(w, v),
            None => r is None,
        },
{
    let mut i: usize = 0;
    assert(pairs@.subrange(0, pairs@.len() as int) == pairs@);
    while i < pairs.len()
        invariant
            i <= pairs@.len(),
            lookup(pairs@, name) == lookup(pairs@.subrange(i as int, pairs@.len() as int), name),
        decreases pairs@.len() - i,
    {
        let ghost rest = pairs@.subrange(i as int, pairs@.len() as int);
        assert(rest.drop_first() == pairs@.subrange(i + 1 as int, pairs@.len() as int));
        assert(rest[0] == pairs@[i as int]);
        if str_eq(pairs[i].0, name) {
            return Some(pairs[i].1.duplicate());
        }
        i = i + 1;
    }
    None
}

/// The `SELECT` that reloads an upserted row on a backend without `RETURNING`:
/// every model column of the row whose conflict-target columns hold the values
/// written (a target column with no value is not tested), `LIMIT 1`.
pub fn upsert_reload(
    table: &'static str,
    columns: &Vec<ColumnDef>,
    conflict_target: &[&'static str],
    pairs: &Vec<(&'static str, Value)>,
) -> (s: SelectStatement)
    ensures
        reloads_by(s, table, columns@, s.filters@),
        filters_match(s.filters@, table, target_keys(conflict_target@, pairs@)),
{
    let mut select = SelectStatement::new(table, select_all_columns(table, columns));
    let mut i: usize = 0;
    while i < conflict_target.len()
        invariant
            i <= conflict_target@.len(),
            select.with is None,
            select.table == table,
            select.projection@ == all_columns(table, columns@),
            select.joins@.len() == 0,
            select.group_by@.len() == 0,
            select.having is None,
            select.order_by@.len() == 0,
            select.limit is None,
            select.offset is None,
            !select.distinct,
            select.distinct_on@.len() == 0,
            select.lock is None,
            filters_match(select.filters@, table, target_keys(conflict_target@.take(i as int), pairs@)),
        decreases conflict_target@.len() - i,
    {
        assert(conflict_target@.take(i + 1 as int).drop_last() == conflict_target@.take(i as int));
        let target = conflict_target[i];
        match find_value(pairs, target) {
            Some(v) => {
                let ghost before = select.filters@;
                select.filters.push(primary_key_filter(table, target, v));
                assert(select.filters@.drop_last() == before);
            },
            None => {},
        }
        i = i + 1;
    }
    assert(conflict_target@.take(i as int) == conflict_target@);
    select.limit = Some(1);
    select
}

/// The `UPDATE` of `update_or_create` for a row that was found: every column value
/// written to the row with the found row's primary key.
pub fn update_by_key(
    table: &'static str,
    primary_key: &'static str,
    key: Value,
    pairs: Vec<(&'static str, Value)>,
) -> (s: UpdateStatement)
    ensures
        s.table == table,
        s.assignments@ == value_assignments(pairs@),
        s.filters@ == seq![key_filter(table, primary_key, key)],
        s.returning@.len() == 0,
{
    let ghost k = key;
    let assignments = assignments_of(pairs);
    let mut filters: Vec<Expr> = Vec::new();
    filters.push(primary_key_filter(table, primary_key, key));
    assert(filters@ == seq![key_filter(table, primary_key, k)]);
    UpdateStatement { table, assignments, filters, returning: Vec::new() }
}

/// How `delete` removes an instance's row.
pub enum Removal {
    /// Soft delete: stamp the soft-delete column with the current time.
    Stamp(UpdateStatement),
    /// Remove the row.
    Delete(DeleteStatement),
}

/// The `DELETE` of the row with the given primary key.
pub fn delete_by_key(table: &'static str, primary_key: &'static str, key: Value) -> (s: DeleteStatement)
    ensures
        s.table == table,
        s.filters@ == seq![key_filter(table, primary_key, key)],
        s.returning@.len() == 0,
{
    let ghost k = key;
    let mut filters: Vec<Expr> = Vec::new();
    filters.push(primary_key_filter(table, primary_key, key));
    assert(filters@ == seq![key_filter(table, primary_key, k)]);
    DeleteStatement { table, filters, returning: Vec::new() }
}

/// The statement of a `delete`: for a model with a soft-delete column, an `UPDATE`
/// stamping that column with the current time; otherwise a `DELETE`; either way of
/// the row with the instance's primary key.
pub fn removal(table: &'static str, primary_key: &'static str, key: Value, deleted_at: Option<&'static str>) -> (r: Removal)
    ensures
        match deleted_at {
            Some(c) => r matches Removal::Stamp(u) && u.table == table && u.assignments@.len() == 1
                && u.assignments@[0].column == c && is_current_timestamp(u.assignments@[0].value)
                && u.filters@ == seq![key_filter(table, primary_key, key)] && u.returning@.len() == 0,
            None => r matches Removal::Delete(d) && d.table == table && d.filters@ == seq![
                key_filter(table, primary_key, key),
            ] && d.returning@.len() == 0,
        },
{
    match deleted_at {
        Some(column) => {
            let ghost k = key;
            let stamp = Expr::raw(owned("CURRENT_TIMESTAMP"));
            proof {
                reveal_strlit("CURRENT_TIMESTAMP");
            }
            let mut assignments: Vec<Assignment> = Vec::new();
            assignments.push(Assignment::new(column, stamp));
            let mut filters: Vec<Expr> = Vec::new();
            filters.push(primary_key_filter(table, primary_key, key));
            assert(filters@ == seq![key_filter(table, primary_key, k)]);
            Removal::Stamp(UpdateStatement { table, assignments, filters, returning: Vec::new() })
        },
        None => Removal::Delete(delete_by_key(table, primary_key, key)),
    }
}

/// The statement of a `restore`: for a model with a soft-delete column, an
/// `UPDATE` clearing it (`NULL`) on the row with the instance's primary key;
/// nothing for a model without one.
pub fn restore_statement(
    table: &'static str,
    primary_key: &'static str,
    key: Value,
    deleted_at: Option<&'static str>,
) -> (r: Option<UpdateStatement>)
    ensures
        match deleted_at {
            Some(c) => r matches Some(u) && u.table == table && u.assignments@ == seq![
                Assignment { column: c, value: Expr::Value(Value::Null) },
            ] && u.filters@ == seq![key_filter(table, primary_key, key)] && u.returning@.len() == 0,
            None => r is None,
        },
{
    match deleted_at {
        Some(column) => {
            let ghost k = key;
            let mut assignments: Vec<Assignment> = Vec::new();
            assignments.push(Assignment::new(column, Expr::value(Value::Null)));
            let mut filters: Vec<Expr> = Vec::new();
            filters.push(primary_key_filter(table, primary_key, key));
            assert(filters@ == seq![key_filter(table, primary_key, k)]);
            Some(UpdateStatement { table, assignments, filters, returning: Vec::new() })
        },
        None => None,
    }
}

/// What a query expecting exactly one row answers when `rows` rows matched (it
/// fetches at most two): not found for none, the row for one, and "multiple found"
/// for more.
pub fn expect_one(table: &str, rows: usize) -> (r: Result<(), OrmError>)
    ensures
        rows == 0 ==> (r matches Err(e) && e.spec_kind() == ErrorKind::NotFound && e.spec_message()
            == "no row in `"@ + table@ + "` matched the query"@),
        rows == 1 ==> r is Ok,
        rows > 1 ==> (r matches Err(e) && e.spec_kind() == ErrorKind::MultipleFound
            && e.spec_message() == "more than one row in `"@ + table@ + "` matched the query"@),
{
    if rows == 0 {
        let mut message = owned("no row in `");
        push_str(&mut message, table);
        push_str(&mut message, "` matched the query");
        Err(OrmError::not_found(message.as_str()))
    } else if rows == 1 {
        Ok(())
    } else {
        let mut message = owned("more than one row in `");
        push_str(&mut message, table);
        push_str(&mut message, "` matched the query");
        Err(OrmError::multiple_found(message.as_str()))
    }
}

} // verus!
