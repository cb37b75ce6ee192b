//! Rendering the DDL AST to SQL.
//!
//! These functions turn the backend-neutral DDL AST into SQL strings for a
//! given dialect. Identifiers are quoted through the dialect; the few constructs
//! that differ between backends (auto-increment columns, type spelling, enum
//! checks) branch on the dialect's kind. Rendering is deterministic: the output
//! depends only on the input AST and the dialect, which is what lets a
//! migration's rendered DDL be hashed into a stable checksum.

use vstd::prelude::*;

use crate::dialect::sql::inline_text;
use crate::dialect::{
    bool_text, dialect_name, enum_variants_text, has_index_features, predicate_sql,
    quote_string_literal, quoted_identifier, string_literal, type_text, write_type, Dialect,
    DialectKind, SqlType,
};
use crate::error::{ErrorKind, OrmError};
use crate::index::{IndexColumn, IndexDef, NullsOrder};
use crate::model::fk_action_text;
use crate::text::{push_signed_decimal, push_str, signed_decimal, str_eq};

use super::ddl::{AlterAction, AlterTable, ColumnSpec, DefaultValue, ForeignKeySpec, TableDef};

verus! {

// ---------------------------------------------------------------------------
// What the rendering produces
// ---------------------------------------------------------------------------

/// The character sequences of some strings.
pub open spec fn views(s: Seq<String>) -> Seq<Seq<char>> {
    s.map_values(|x: String| x@)
}

/// Quoted names joined by `", "`.
pub open spec fn names_text(k: DialectKind, s: Seq<Seq<char>>) -> Seq<char>
    decreases s.len(),
{
    if s.len() == 0 {
        seq![]
    } else if s.len() == 1 {
        quoted_identifier(k, s[0])
    } else {
        names_text(k, s.drop_last()) + ", "@ + quoted_identifier(k, s.last())
    }
}

/// The default expression for a generated UUID.
pub open spec fn uuid_default_text(k: DialectKind) -> Seq<char> {
    match k {
        DialectKind::Postgres => "gen_random_uuid()"@,
        DialectKind::Mysql => "(UUID())"@,
        DialectKind::Sqlite => "(lower(hex(randomblob(16))))"@,
    }
}

/// A default value as a SQL literal.
pub open spec fn default_text(k: DialectKind, d: DefaultValue) -> Seq<char> {
    match d {
        DefaultValue::Bool(b) => bool_text(k, b),
        DefaultValue::Int(i) => signed_decimal(i as int),
        DefaultValue::Real(t) => t@,
        DefaultValue::Text(t) => string_literal(t@, false),
        DefaultValue::CurrentTimestamp => "CURRENT_TIMESTAMP"@,
        DefaultValue::Uuid => uuid_default_text(k),
        DefaultValue::Null => "NULL"@,
        DefaultValue::Raw(s) => s@,
    }
}

/// The `CHECK` that restricts an enum column to its variants on backends
/// without a native enum type (all but MySQL).
pub open spec fn enum_check_text(k: DialectKind, column: Seq<char>, ty: SqlType) -> Seq<char> {
    match ty {
        SqlType::Enum { name, variants } => if k != DialectKind::Mysql {
            " CHECK ("@ + quoted_identifier(k, column) + " IN ("@ + enum_variants_text(variants@)
                + "))"@
        } else {
            seq![]
        },
        _ => seq![],
    }
}

/// The auto-increment primary key form of a column's type.
pub open spec fn auto_pk_text(k: DialectKind) -> Seq<char> {
    match k {
        DialectKind::Sqlite => "INTEGER PRIMARY KEY AUTOINCREMENT"@,
        DialectKind::Postgres => "BIGSERIAL PRIMARY KEY"@,
        DialectKind::Mysql => "BIGINT AUTO_INCREMENT PRIMARY KEY"@,
    }
}

/// The type and constraints of an ordinary column.
pub open spec fn column_body_text(k: DialectKind, c: ColumnSpec) -> Seq<char> {
    type_text(k, c.ty) + (if !c.nullable {
        " NOT NULL"@
    } else {
        seq![]
    }) + (if c.unique {
        " UNIQUE"@
    } else {
        seq![]
    }) + match c.default {
        Some(d) => " DEFAULT "@ + default_text(k, d),
        None => seq![],
    } + enum_check_text(k, c.name@, c.ty)
}

/// One column; `auto_pk` selects the dialect's auto-increment primary key form.
pub open spec fn column_text(k: DialectKind, c: ColumnSpec, auto_pk: bool) -> Seq<char> {
    quoted_identifier(k, c.name@) + " "@ + if auto_pk {
        auto_pk_text(k)
    } else {
        column_body_text(k, c)
    }
}

/// The names of the columns marked primary key and auto-increment.
pub open spec fn auto_pk_names(cols: Seq<ColumnSpec>) -> Seq<Seq<char>>
    decreases cols.len(),
{
    if cols.len() == 0 {
        seq![]
    } else if cols.last().primary_key && cols.last().auto_increment {
        auto_pk_names(cols.drop_last()).push(cols.last().name@)
    } else {
        auto_pk_names(cols.drop_last())
    }
}

/// The names of the columns marked primary key.
pub open spec fn pk_names(cols: Seq<ColumnSpec>) -> Seq<Seq<char>>
    decreases cols.len(),
{
    if cols.len() == 0 {
        seq![]
    } else if cols.last().primary_key {
        pk_names(cols.drop_last()).push(cols.last().name@)
    } else {
        pk_names(cols.drop_last())
    }
}

/// The single auto-increment primary key column of a table without a
/// composite primary key, if there is exactly one.
pub open spec fn auto_pk(t: TableDef) -> Option<Seq<char>> {
    if t.primary_key@.len() > 0 {
        None
    } else if auto_pk_names(t.columns@).len() == 1 {
        Some(auto_pk_names(t.columns@)[0])
    } else {
        None
    }
}

/// The primary key columns: the composite list, else the inline-marked columns.
pub open spec fn primary_key_names(t: TableDef) -> Seq<Seq<char>> {
    if t.primary_key@.len() > 0 {
        views(t.primary_key@)
    } else {
        pk_names(t.columns@)
    }
}

/// The columns of a table, joined by `", "`.
pub open spec fn columns_text(k: DialectKind, cols: Seq<ColumnSpec>, auto: Option<Seq<char>>) -> Seq<
    char,
>
    decreases cols.len(),
{
    if cols.len() == 0 {
        seq![]
    } else {
        let c = cols.last();
        let t = column_text(k, c, auto == Some(c.name@));
        if cols.len() == 1 {
            t
        } else {
            columns_text(k, cols.drop_last(), auto) + ", "@ + t
        }
    }
}

/// ` ON DELETE action` / ` ON UPDATE action`, when not the default.
pub open spec fn fk_action_clause(word: Seq<char>, a: crate::model::ForeignKeyAction) -> Seq<char> {
    match fk_action_text(a) {
        Some(t) => word + t,
        None => seq![],
    }
}

/// A foreign key constraint clause.
pub open spec fn fk_text(k: DialectKind, fk: ForeignKeySpec) -> Seq<char> {
    "FOREIGN KEY ("@ + names_text(k, views(fk.columns@)) + ") REFERENCES "@ + quoted_identifier(
        k,
        fk.ref_table@,
    ) + " ("@ + names_text(k, views(fk.ref_columns@)) + ")"@ + fk_action_clause(
        " ON DELETE "@,
        fk.on_delete,
    ) + fk_action_clause(" ON UPDATE "@, fk.on_update)
}

/// The foreign keys, each preceded by `", "`.
pub open spec fn fks_text(k: DialectKind, s: Seq<ForeignKeySpec>) -> Seq<char>
    decreases s.len(),
{
    if s.len() == 0 {
        seq![]
    } else {
        fks_text(k, s.drop_last()) + ", "@ + fk_text(k, s.last())
    }
}

/// The checks, each `, CHECK (expr)`.
pub open spec fn checks_text(s: Seq<String>) -> Seq<char>
    decreases s.len(),
{
    if s.len() == 0 {
        seq![]
    } else {
        checks_text(s.drop_last()) + ", CHECK ("@ + s.last()@ + ")"@
    }
}

/// The `CREATE TABLE` statement of a table.
pub open spec fn table_text(k: DialectKind, t: TableDef) -> Seq<char> {
    let pk = primary_key_names(t);
    "CREATE TABLE "@ + (if t.if_not_exists {
        "IF NOT EXISTS "@
    } else {
        seq![]
    }) + quoted_identifier(k, t.name@) + " ("@ + columns_text(k, t.columns@, auto_pk(t)) + (if auto_pk(
        t,
    ) is None && pk.len() > 0 {
        ", PRIMARY KEY ("@ + names_text(k, pk) + ")"@
    } else {
        seq![]
    }) + fks_text(k, t.foreign_keys@) + checks_text(t.checks@) + ")"@
}

/// One entry of an index.
pub open spec fn index_column_text(k: DialectKind, c: IndexColumn) -> Seq<char> {
    (match c.expression {
        Some(e) => "("@ + inline_text(k, e) + ")"@,
        None => quoted_identifier(k, c.name@),
    }) + (match c.collation {
        Some(coll) => " COLLATE "@ + coll@,
        None => seq![],
    }) + (match c.opclass {
        Some(op) => " "@ + op@,
        None => seq![],
    }) + (if c.descending {
        " DESC"@
    } else {
        seq![]
    }) + match c.nulls {
        Some(NullsOrder::First) => " NULLS FIRST"@,
        Some(NullsOrder::Last) => " NULLS LAST"@,
        None => seq![],
    }
}

/// The entries of an index joined by `", "`.
pub open spec fn index_columns_text(k: DialectKind, s: Seq<IndexColumn>) -> Seq<char>
    decreases s.len(),
{
    if s.len() == 0 {
        seq![]
    } else if s.len() == 1 {
        index_column_text(k, s[0])
    } else {
        index_columns_text(k, s.drop_last()) + ", "@ + index_column_text(k, s.last())
    }
}

/// The `CREATE INDEX` statement of an index on `table`; the predicate is
/// rendered with inline literals, since DDL cannot bind parameters.
pub open spec fn index_text(k: DialectKind, table: Seq<char>, idx: IndexDef, if_not_exists: bool) -> Seq<
    char,
> {
    "CREATE "@ + (if idx.unique {
        "UNIQUE "@
    } else {
        seq![]
    }) + "INDEX "@ + (if if_not_exists {
        "IF NOT EXISTS "@
    } else {
        seq![]
    }) + quoted_identifier(k, idx.name@) + " ON "@ + quoted_identifier(k, table) + (match idx.method {
        Some(m) => " USING "@ + m@,
        None => seq![],
    }) + " ("@ + index_columns_text(k, idx.columns@) + ")"@ + (if idx.covering@.len() > 0 {
        " INCLUDE ("@ + names_text(k, views(idx.covering@)) + ")"@
    } else {
        seq![]
    }) + match idx.predicate {
        Some(p) => " WHERE "@ + inline_text(k, p),
        None => seq![],
    }
}

/// Whether some entry of the index names an operator class.
pub open spec fn has_opclass(s: Seq<IndexColumn>) -> bool {
    exists|i: int| 0 <= i < s.len() && (#[trigger] s[i]).opclass is Some
}

/// The message of the first feature of `idx` that the backend lacks, if any:
/// an index method, then covering columns, then operator classes.
pub open spec fn index_problem(k: DialectKind, idx: IndexDef) -> Option<Seq<char>> {
    if has_index_features(k) {
        None
    } else if idx.method is Some {
        Some(dialect_name(k) + " does not support index method `"@ + idx.method->0@ + "`"@)
    } else if idx.covering@.len() > 0 {
        Some(dialect_name(k) + " does not support covering index columns (INCLUDE)"@)
    } else if has_opclass(idx.columns@) {
        Some(dialect_name(k) + " does not support index operator classes"@)
    } else {
        None
    }
}

/// The first index of `s` with a problem, at or after `from`.
pub open spec fn first_problem(k: DialectKind, s: Seq<IndexDef>, from: int) -> Option<Seq<char>>
    decreases s.len() - from,
{
    if from >= s.len() || from < 0 {
        None
    } else if index_problem(k, s[from]) is Some {
        index_problem(k, s[from])
    } else {
        first_problem(k, s, from + 1)
    }
}

/// The statement of one `ALTER TABLE` action.
pub open spec fn alter_action_text(k: DialectKind, table: Seq<char>, a: AlterAction) -> Seq<char> {
    "ALTER TABLE "@ + quoted_identifier(k, table) + match a {
        AlterAction::AddColumn(c) => " ADD COLUMN "@ + column_text(k, c, false),
        AlterAction::DropColumn(name) => " DROP COLUMN "@ + quoted_identifier(k, name@),
        AlterAction::RenameColumn { from, to } => " RENAME COLUMN "@ + quoted_identifier(k, from@)
            + " TO "@ + quoted_identifier(k, to@),
    }
}

// ---------------------------------------------------------------------------
// Rendering
// ---------------------------------------------------------------------------

/// Appends quoted names joined by `", "`.
pub fn render_identifier_list<D: Dialect>(dialect: &D, names: &Vec<String>, out: &mut String)
    ensures
        final(out)@ == old(out)@ + names_text(dialect.spec_kind(), views(names@)),
{
    let ghost start = out@;
    let ghost k = dialect.spec_kind();
    let mut i: usize = 0;
    while i < names.len()
        invariant
            i <= names@.len(),
            k == dialect.spec_kind(),
            out@ == start + names_text(k, views(names@.take(i as int))),
        decreases names@.len() - i,
    {
        assert(views(names@.take(i + 1)).drop_last() =~= views(names@.take(i as int)));
        assert(views(names@.take(i + 1)).last() == names@[i as int]@);
        assert(views(names@.take(i + 1)).len() == i + 1);
        if i != 0 {
            push_str(out, ", ");
        }
        dialect.quote_identifier(names[i].as_str(), out);
        proof {
            if i == 0 {
                assert(views(names@.take(1))[0] == names@[0]@);
            }
        }
        i = i + 1;
    }
    assert(names@.take(i as int) == names@);
}

/// Appends a default value as a SQL literal.
pub fn render_default<D: Dialect>(dialect: &D, default: &DefaultValue, out: &mut String)
    ensures
        final(out)@ == old(out)@ + default_text(dialect.spec_kind(), *default),
{
    match default {
        DefaultValue::Bool(value) => push_str(out, dialect.bool_literal(*value)),
        DefaultValue::Int(value) => push_signed_decimal(out, *value),
        DefaultValue::Real(text) => push_str(out, text.as_str()),
        DefaultValue::Text(text) => quote_string_literal(text.as_str(), out),
        DefaultValue::CurrentTimestamp => push_str(out, "CURRENT_TIMESTAMP"),
        DefaultValue::Uuid => match dialect.kind() {
            DialectKind::Postgres => push_str(out, "gen_random_uuid()"),
            DialectKind::Mysql => push_str(out, "(UUID())"),
            DialectKind::Sqlite => push_str(out, "(lower(hex(randomblob(16))))"),
        },
        DefaultValue::Null => push_str(out, "NULL"),
        DefaultValue::Raw(sql) => push_str(out, sql.as_str()),
    }
}

/// Appends the variant check of an enum column, on backends without a native
/// enum type.
fn render_enum_check<D: Dialect>(dialect: &D, column: &str, ty: &SqlType, out: &mut String)
    ensures
        final(out)@ == old(out)@ + enum_check_text(dialect.spec_kind(), column@, *ty),
{
    let ghost start = out@;
    match ty {
        SqlType::Enum { name: _, variants } => {
            if dialect.kind() != DialectKind::Mysql {
                push_str(out, " CHECK (");
                dialect.quote_identifier(column, out);
                push_str(out, " IN (");
                let mut i: usize = 0;
                let ghost mid = out@;
                while i < variants.len()
                    invariant
                        i <= variants@.len(),
                        out@ == mid + enum_variants_text(variants@.take(i as int)),
                    decreases variants@.len() - i,
                {
                    assert(variants@.take(i + 1).drop_last() == variants@.take(i as int));
                    if i != 0 {
                        push_str(out, ", ");
                    }
                    quote_string_literal(variants[i].as_str(), out);
                    i = i + 1;
                }
                assert(variants@.take(i as int) == variants@);
                push_str(out, "))");
                assert(out@ =~= start + enum_check_text(dialect.spec_kind(), column@, *ty));
            }
        },
        _ => {},
    }
}

/// Appends one column; when `is_auto_pk`, the dialect's auto-increment primary
/// key form replaces the type and constraints.
#[verifier::spinoff_prover]
#[verifier::rlimit(40)]
pub fn render_column<D: Dialect>(dialect: &D, column: &ColumnSpec, is_auto_pk: bool, out: &mut String)
    ensures
        final(out)@ == old(out)@ + column_text(dialect.spec_kind(), *column, is_auto_pk),
{
    let ghost start = out@;
    let ghost k = dialect.spec_kind();
    dialect.quote_identifier(column.name.as_str(), out);
    push_str(out, " ");
    let ghost mid = out@;
    if is_auto_pk {
        match dialect.kind() {
            DialectKind::Sqlite => push_str(out, "INTEGER PRIMARY KEY AUTOINCREMENT"),
            DialectKind::Postgres => push_str(out, "BIGSERIAL PRIMARY KEY"),
            DialectKind::Mysql => push_str(out, "BIGINT AUTO_INCREMENT PRIMARY KEY"),
        }
    } else {
        write_type(dialect.kind(), &column.ty, out);
        if !column.nullable {
            push_str(out, " NOT NULL");
        }
        if column.unique {
            push_str(out, " UNIQUE");
        }
        let ghost before_default = out@;
        match &column.default {
            Some(default) => {
                push_str(out, " DEFAULT ");
                render_default(dialect, default, out);
            },
            None => {},
        }
        let ghost default_part: Seq<char> = match &column.default {
            Some(d) => " DEFAULT "@ + default_text(k, *d),
            None => seq![],
        };
        assert(out@ =~= before_default + default_part);
        render_enum_check(dialect, column.name.as_str(), &column.ty, out);
        assert(out@ =~= mid + column_body_text(k, *column));
    }
    assert(out@ =~= start + column_text(k, *column, is_auto_pk));
}

/// Returns the column type a dialect spells for `ty`.
pub fn column_type_str<D: Dialect>(dialect: &D, ty: &SqlType) -> (s: String)
    ensures
        s@ == type_text(dialect.spec_kind(), *ty),
{
    let mut out = String::new();
    write_type(dialect.kind(), ty, &mut out);
    out
}

/// Appends a foreign key constraint clause.
pub fn render_foreign_key<D: Dialect>(dialect: &D, fk: &ForeignKeySpec, out: &mut String)
    ensures
        final(out)@ == old(out)@ + fk_text(dialect.spec_kind(), *fk),
{
    let ghost start = out@;
    push_str(out, "FOREIGN KEY (");
    render_identifier_list(dialect, &fk.columns, out);
    push_str(out, ") REFERENCES ");
    dialect.quote_identifier(fk.ref_table.as_str(), out);
    push_str(out, " (");
    render_identifier_list(dialect, &fk.ref_columns, out);
    push_str(out, ")");
    let ghost mid = out@;
    match fk.on_delete.as_sql() {
        Some(action) => {
            push_str(out, " ON DELETE ");
            push_str(out, action);
        },
        None => {},
    }
    assert(out@ =~= mid + fk_action_clause(" ON DELETE "@, fk.on_delete));
    let ghost mid2 = out@;
    match fk.on_update.as_sql() {
        Some(action) => {
            push_str(out, " ON UPDATE ");
            push_str(out, action);
        },
        None => {},
    }
    assert(out@ =~= mid2 + fk_action_clause(" ON UPDATE "@, fk.on_update));
    assert(out@ =~= start + fk_text(dialect.spec_kind(), *fk));
}

/// Returns the single auto-increment primary key column of a table without a
/// composite primary key, if it has exactly one.
pub fn auto_increment_pk(table: &TableDef) -> (r: Option<String>)
    ensures
        match (r, auto_pk(*table)) {
            (Some(s), Some(t)) => s@ == t,
            (None, None) => true,
            _ => false,
        },
{
    if table.primary_key.len() > 0 {
        return None;
    }
    let mut found: Option<String> = None;
    let mut i: usize = 0;
    while i < table.columns.len()
        invariant
            i <= table.columns@.len(),
            table.primary_key@.len() == 0,
            auto_pk_names(table.columns@.take(i as int)).len() <= 1,
            match found {
                Some(s) => auto_pk_names(table.columns@.take(i as int)).len() == 1 && s@
                    == auto_pk_names(table.columns@.take(i as int))[0],
                None => auto_pk_names(table.columns@.take(i as int)).len() == 0,
            },
        decreases table.columns@.len() - i,
    {
        assert(table.columns@.take(i + 1).drop_last() == table.columns@.take(i as int));
        let column = &table.columns[i];
        if column.primary_key && column.auto_increment {
            if found.is_some() {
                proof {
                    lemma_auto_pk_names_monotone(table.columns@, i + 1);
                }
                return None;
            }
            found = Some(column.name.clone());
        }
        i = i + 1;
    }
    assert(table.columns@.take(i as int) == table.columns@);
    found
}

/// More columns never have fewer auto-increment primary keys.
proof fn lemma_auto_pk_names_monotone(cols: Seq<ColumnSpec>, i: int)
    requires
        0 <= i <= cols.len(),
    ensures
        auto_pk_names(cols.take(i)).len() <= auto_pk_names(cols).len(),
    decreases cols.len() - i,
{
    if i < cols.len() {
        lemma_auto_pk_names_monotone(cols, i + 1);
        assert(cols.take(i + 1).drop_last() == cols.take(i));
    } else {
        assert(cols.take(i) == cols);
    }
}

/// Returns the primary key column names: the composite list, else the
/// inline-marked columns.
pub fn primary_key_columns(table: &TableDef) -> (r: Vec<String>)
    ensures
        views(r@) == primary_key_names(*table),
{
    let mut r: Vec<String> = Vec::new();
    if table.primary_key.len() > 0 {
        let mut i: usize = 0;
        while i < table.primary_key.len()
            invariant
                i <= table.primary_key@.len(),
                r@.len() == i,
                forall|j: int| 0 <= j < i ==> (#[trigger] r@[j])@ == table.primary_key@[j]@,
            decreases table.primary_key@.len() - i,
        {
            r.push(table.primary_key[i].clone());
            i = i + 1;
        }
        assert(views(r@) =~= views(table.primary_key@));
        return r;
    }
    let mut i: usize = 0;
    while i < table.columns.len()
        invariant
            i <= table.columns@.len(),
            table.primary_key@.len() == 0,
            views(r@) == pk_names(table.columns@.take(i as int)),
        decreases table.columns@.len() - i,
    {
        assert(table.columns@.take(i + 1).drop_last() == table.columns@.take(i as int));
        if table.columns[i].primary_key {
            r.push(table.columns[i].name.clone());
            assert(views(r@) =~= pk_names(table.columns@.take(i + 1)));
        }
        i = i + 1;
    }
    assert(table.columns@.take(i as int) == table.columns@);
    r
}

/// Rejects an index whose features the dialect does not support: an index
/// method, covering columns, or operator classes, checked in that order.
pub fn validate_index<D: Dialect>(dialect: &D, index: &IndexDef) -> (r: Result<(), OrmError>)
    ensures
        match index_problem(dialect.spec_kind(), *index) {
            None => r is Ok,
            Some(m) => r matches Err(e) && e.spec_kind() == ErrorKind::Configuration
                && e.spec_message() == m,
        },
{
    let ghost k = dialect.spec_kind();
    match &index.method {
        Some(method) => {
            if !dialect.supports_index_method() {
                let mut message = String::new();
                push_str(&mut message, dialect.name());
                push_str(&mut message, " does not support index method `");
                push_str(&mut message, method.as_str());
                push_str(&mut message, "`");
                return Err(OrmError::configuration(message.as_str()));
            }
        },
        None => {},
    }
    if index.covering.len() > 0 && !dialect.supports_index_include() {
        let mut message = String::new();
        push_str(&mut message, dialect.name());
        push_str(&mut message, " does not support covering index columns (INCLUDE)");
        return Err(OrmError::configuration(message.as_str()));
    }
    let mut any_opclass = false;
    let mut i: usize = 0;
    while i < index.columns.len()
        invariant
            i <= index.columns@.len(),
            any_opclass == exists|j: int| 0 <= j < i && (#[trigger] index.columns@[j]).opclass is Some,
        decreases index.columns@.len() - i,
    {
        if index.columns[i].opclass.is_some() {
            any_opclass = true;
        }
        i = i + 1;
    }
    if any_opclass && !dialect.supports_index_opclass() {
        let mut message = String::new();
        push_str(&mut message, dialect.name());
        push_str(&mut message, " does not support index operator classes");
        return Err(OrmError::configuration(message.as_str()));
    }
    Ok(())
}

/// Appends one index entry.
#[verifier::spinoff_prover]
#[verifier::rlimit(40)]
fn render_index_column<D: Dialect>(dialect: &D, column: &IndexColumn, out: &mut String)
    ensures
        final(out)@ == old(out)@ + index_column_text(dialect.spec_kind(), *column),
{
    let ghost start = out@;
    let ghost k = dialect.spec_kind();
    match &column.expression {
        Some(expression) => {
            push_str(out, "(");
            let text = predicate_sql(dialect, expression);
            push_str(out, text.as_str());
            push_str(out, ")");
        },
        None => dialect.quote_identifier(column.name.as_str(), out),
    }
    let ghost t1 = out@;
    match &column.collation {
        Some(collation) => {
            push_str(out, " COLLATE ");
            push_str(out, collation.as_str());
        },
        None => {},
    }
    let ghost t2 = out@;
    match &column.opclass {
        Some(opclass) => {
            push_str(out, " ");
            push_str(out, opclass.as_str());
        },
        None => {},
    }
    let ghost t3 = out@;
    if column.descending {
        push_str(out, " DESC");
    }
    let ghost t4 = out@;
    match column.nulls {
        Some(NullsOrder::First) => push_str(out, " NULLS FIRST"),
        Some(NullsOrder::Last) => push_str(out, " NULLS LAST"),
        None => {},
    }
    assert(t1 =~= start + match &column.expression {
        Some(e) => "("@ + inline_text(k, *e) + ")"@,
        None => quoted_identifier(k, column.name@),
    });
    assert(out@ =~= start + index_column_text(k, *column));
}

/// Renders a `CREATE INDEX` for an index on `table`: per-column ordering and
/// operator class, a partial `WHERE` predicate with inline literals, the index
/// method and covering columns. The PostgreSQL-only features are validated
/// against the dialect and produce an error rather than being dropped.
pub fn create_index<D: Dialect>(dialect: &D, table: &str, index: &IndexDef, if_not_exists: bool) -> (r: Result<String, OrmError>)
    ensures
        match index_problem(dialect.spec_kind(), *index) {
            None => r matches Ok(s) && s@ == index_text(dialect.spec_kind(), table@, *index, if_not_exists),
            Some(m) => r matches Err(e) && e.spec_kind() == ErrorKind::Configuration
                && e.spec_message() == m,
        },
{
    let ghost k = dialect.spec_kind();
    validate_index(dialect, index)?;
    let mut sql = String::new();
    push_str(&mut sql, "CREATE ");
    if index.unique {
        push_str(&mut sql, "UNIQUE ");
    }
    push_str(&mut sql, "INDEX ");
    if if_not_exists {
        push_str(&mut sql, "IF NOT EXISTS ");
    }
    dialect.quote_identifier(index.name.as_str(), &mut sql);
    push_str(&mut sql, " ON ");
    dialect.quote_identifier(table, &mut sql);
    let ghost t1 = sql@;
    match &index.method {
        Some(method) => {
            push_str(&mut sql, " USING ");
            push_str(&mut sql, method.as_str());
        },
        None => {},
    }
    let ghost t2 = sql@;
    push_str(&mut sql, " (");
    let ghost t3 = sql@;
    let mut i: usize = 0;
    while i < index.columns.len()
        invariant
            i <= index.columns@.len(),
            k == dialect.spec_kind(),
            sql@ == t3 + index_columns_text(k, index.columns@.take(i as int)),
        decreases index.columns@.len() - i,
    {
        assert(index.columns@.take(i + 1).drop_last() == index.columns@.take(i as int));
        if i != 0 {
            push_str(&mut sql, ", ");
        }
        render_index_column(dialect, &index.columns[i], &mut sql);
        i = i + 1;
    }
    assert(index.columns@.take(i as int) == index.columns@);
    push_str(&mut sql, ")");
    let ghost t4 = sql@;
    if index.covering.len() > 0 {
        push_str(&mut sql, " INCLUDE (");
        render_identifier_list(dialect, &index.covering, &mut sql);
        push_str(&mut sql, ")");
    }
    let ghost t5 = sql@;
    match &index.predicate {
        Some(predicate) => {
            push_str(&mut sql, " WHERE ");
            let text = predicate_sql(dialect, predicate);
            push_str(&mut sql, text.as_str());
        },
        None => {},
    }
    assert(t2 =~= t1 + match &index.method {
        Some(m) => " USING "@ + m@,
        None => seq![],
    });
    assert(t5 =~= t4 + if index.covering@.len() > 0 {
        " INCLUDE ("@ + names_text(k, views(index.covering@)) + ")"@
    } else {
        seq![]
    });
    assert(sql@ =~= t5 + match &index.predicate {
        Some(p) => " WHERE "@ + inline_text(k, *p),
        None => seq![],
    });
    assert(sql@ =~= index_text(k, table@, *index, if_not_exists));
    Ok(sql)
}

/// Renders a `CREATE TABLE`, returning the table statement followed by the
/// statements of the indexes declared alongside it; fails on the first index
/// that uses a feature the dialect lacks.
pub fn create_table<D: Dialect>(dialect: &D, table: &TableDef) -> (r: Result<Vec<String>, OrmError>)
    ensures
        match first_problem(dialect.spec_kind(), table.indexes@, 0) {
            None => r matches Ok(v) && v@.len() == table.indexes@.len() + 1 && v@[0]@ == table_text(
                dialect.spec_kind(),
                *table,
            ) && forall|i: int|
                0 <= i < table.indexes@.len() ==> (#[trigger] v@[i + 1])@ == index_text(
                    dialect.spec_kind(),
                    table.name@,
                    table.indexes@[i],
                    table.if_not_exists,
                ),
            Some(m) => r matches Err(e) && e.spec_kind() == ErrorKind::Configuration
                && e.spec_message() == m,
        },
{
    let ghost k = dialect.spec_kind();
    let sql = render_table_statement(dialect, table);
    let mut statements: Vec<String> = Vec::new();
    statements.push(sql);
    let mut i: usize = 0;
    while i < table.indexes.len()
        invariant
            i <= table.indexes@.len(),
            k == dialect.spec_kind(),
            first_problem(k, table.indexes@, 0) == first_problem(k, table.indexes@, i as int),
            statements@.len() == i + 1,
            statements@[0]@ == table_text(k, *table),
            forall|j: int|
                0 <= j < i ==> (#[trigger] statements@[j + 1])@ == index_text(
                    k,
                    table.name@,
                    table.indexes@[j],
                    table.if_not_exists,
                ),
        decreases table.indexes@.len() - i,
    {
        let statement = create_index(dialect, table.name.as_str(), &table.indexes[i], table.if_not_exists)?;
        statements.push(statement);
        i = i + 1;
    }
    Ok(statements)
}

/// Renders the table statement of a `CREATE TABLE`.
fn render_table_statement<D: Dialect>(dialect: &D, table: &TableDef) -> (s: String)
    ensures
        s@ == table_text(dialect.spec_kind(), *table),
{
    let ghost k = dialect.spec_kind();
    let mut sql = String::new();
    push_str(&mut sql, "CREATE TABLE ");
    if table.if_not_exists {
        push_str(&mut sql, "IF NOT EXISTS ");
    }
    dialect.quote_identifier(table.name.as_str(), &mut sql);
    push_str(&mut sql, " (");
    let ghost t1 = sql@;
    let auto = auto_increment_pk(table);
    let ghost auto_view = auto_pk(*table);
    let mut i: usize = 0;
    while i < table.columns.len()
        invariant
            i <= table.columns@.len(),
            k == dialect.spec_kind(),
            auto_view == auto_pk(*table),
            match (auto, auto_view) {
                (Some(s), Some(t)) => s@ == t,
                (None, None) => true,
                _ => false,
            },
            sql@ == t1 + columns_text(k, table.columns@.take(i as int), auto_view),
        decreases table.columns@.len() - i,
    {
        assert(table.columns@.take(i + 1).drop_last() == table.columns@.take(i as int));
        let column = &table.columns[i];
        let is_auto_pk = match &auto {
            Some(name) => str_eq(name.as_str(), column.name.as_str()),
            None => false,
        };
        if i != 0 {
            push_str(&mut sql, ", ");
        }
        render_column(dialect, column, is_auto_pk, &mut sql);
        i = i + 1;
    }
    assert(table.columns@.take(i as int) == table.columns@);
    let ghost t2 = sql@;
    if auto.is_none() {
        let pk = primary_key_columns(table);
        if pk.len() > 0 {
            push_str(&mut sql, ", PRIMARY KEY (");
            render_identifier_list(dialect, &pk, &mut sql);
            push_str(&mut sql, ")");
        }
    }
    let ghost t3 = sql@;
    assert(t3 =~= t2 + if auto_pk(*table) is None && primary_key_names(*table).len() > 0 {
        ", PRIMARY KEY ("@ + names_text(k, primary_key_names(*table)) + ")"@
    } else {
        seq![]
    });
    let mut j: usize = 0;
    while j < table.foreign_keys.len()
        invariant
            j <= table.foreign_keys@.len(),
            k == dialect.spec_kind(),
            sql@ == t3 + fks_text(k, table.foreign_keys@.take(j as int)),
        decreases table.foreign_keys@.len() - j,
    {
        assert(table.foreign_keys@.take(j + 1).drop_last() == table.foreign_keys@.take(j as int));
        push_str(&mut sql, ", ");
        render_foreign_key(dialect, &table.foreign_keys[j], &mut sql);
        j = j + 1;
    }
    assert(table.foreign_keys@.take(j as int) == table.foreign_keys@);
    let ghost t4 = sql@;
    let mut c: usize = 0;
    while c < table.checks.len()
        invariant
            c <= table.checks@.len(),
            sql@ == t4 + checks_text(table.checks@.take(c as int)),
        decreases table.checks@.len() - c,
    {
        assert(table.checks@.take(c + 1).drop_last() == table.checks@.take(c as int));
        push_str(&mut sql, ", CHECK (");
        push_str(&mut sql, table.checks[c].as_str());
        push_str(&mut sql, ")");
        c = c + 1;
    }
    assert(table.checks@.take(c as int) == table.checks@);
    push_str(&mut sql, ")");
    assert(sql@ =~= table_text(k, *table));
    sql
}

/// The `DROP TABLE` statement.
pub open spec fn drop_table_text(k: DialectKind, name: Seq<char>, if_exists: bool) -> Seq<char> {
    "DROP TABLE "@ + (if if_exists {
        "IF EXISTS "@
    } else {
        seq![]
    }) + quoted_identifier(k, name)
}

/// The `DROP INDEX` statement.
pub open spec fn drop_index_text(k: DialectKind, name: Seq<char>, if_exists: bool) -> Seq<char> {
    "DROP INDEX "@ + (if if_exists {
        "IF EXISTS "@
    } else {
        seq![]
    }) + quoted_identifier(k, name)
}

/// Renders a `DROP TABLE`.
pub fn drop_table<D: Dialect>(dialect: &D, name: &str, if_exists: bool) -> (s: String)
    ensures
        s@ == drop_table_text(dialect.spec_kind(), name@, if_exists),
{
    let mut sql = String::new();
    push_str(&mut sql, "DROP TABLE ");
    if if_exists {
        push_str(&mut sql, "IF EXISTS ");
    }
    dialect.quote_identifier(name, &mut sql);
    sql
}

/// Renders a `DROP INDEX`.
pub fn drop_index<D: Dialect>(dialect: &D, name: &str, if_exists: bool) -> (s: String)
    ensures
        s@ == drop_index_text(dialect.spec_kind(), name@, if_exists),
{
    let mut sql = String::new();
    push_str(&mut sql, "DROP INDEX ");
    if if_exists {
        push_str(&mut sql, "IF EXISTS ");
    }
    dialect.quote_identifier(name, &mut sql);
    sql
}

/// Renders an `ALTER TABLE ... RENAME TO`.
pub fn rename_table<D: Dialect>(dialect: &D, from: &str, to: &str) -> (s: String)
    ensures
        s@ == "ALTER TABLE "@ + quoted_identifier(dialect.spec_kind(), from@) + " RENAME TO "@
            + quoted_identifier(dialect.spec_kind(), to@),
{
    let mut sql = String::new();
    push_str(&mut sql, "ALTER TABLE ");
    dialect.quote_identifier(from, &mut sql);
    push_str(&mut sql, " RENAME TO ");
    dialect.quote_identifier(to, &mut sql);
    sql
}

/// Renders an `ALTER TABLE`, one statement per action.
pub fn alter_table<D: Dialect>(dialect: &D, alter: &AlterTable) -> (r: Vec<String>)
    ensures
        r@.len() == alter.actions@.len(),
        forall|i: int|
            0 <= i < r@.len() ==> (#[trigger] r@[i])@ == alter_action_text(
                dialect.spec_kind(),
                alter.table@,
                alter.actions@[i],
            ),
{
    let ghost k = dialect.spec_kind();
    let mut r: Vec<String> = Vec::new();
    let mut i: usize = 0;
    while i < alter.actions.len()
        invariant
            i <= alter.actions@.len(),
            k == dialect.spec_kind(),
            r@.len() == i,
            forall|j: int|
                0 <= j < i ==> (#[trigger] r@[j])@ == alter_action_text(
                    k,
                    alter.table@,
                    alter.actions@[j],
                ),
        decreases alter.actions@.len() - i,
    {
        let mut sql = String::new();
        push_str(&mut sql, "ALTER TABLE ");
        dialect.quote_identifier(alter.table.as_str(), &mut sql);
        let ghost head = sql@;
        match &alter.actions[i] {
            AlterAction::AddColumn(column) => {
                push_str(&mut sql, " ADD COLUMN ");
                render_column(dialect, column, false, &mut sql);
            },
            AlterAction::DropColumn(name) => {
                push_str(&mut sql, " DROP COLUMN ");
                dialect.quote_identifier(name.as_str(), &mut sql);
            },
            AlterAction::RenameColumn { from, to } => {
                push_str(&mut sql, " RENAME COLUMN ");
                dialect.quote_identifier(from.as_str(), &mut sql);
                push_str(&mut sql, " TO ");
                dialect.quote_identifier(to.as_str(), &mut sql);
            },
        }
        assert(sql@ =~= alter_action_text(k, alter.table@, alter.actions@[i as int]));
        r.push(sql);
        i = i + 1;
    }
    r
}

} // verus!
