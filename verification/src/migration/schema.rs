//! The schema manager and its fluent builders.
//!
//! A [`SchemaManager`] is handed to a migration's `up`/`down`. Its builders
//! assemble DDL, render it for the manager's dialect, and collect the rendered
//! statements in order; running them against a database is the caller's part.
//! Collecting is what lets a migration's DDL be previewed and hashed into a
//! stable checksum.

use vstd::prelude::*;

use crate::dialect::{quoted_identifier, Dialect, DialectKind, SqlType};
use crate::error::{ErrorKind, OrmError};
use crate::index::{IndexColumn, IndexDef};
use crate::model::ForeignKeyAction;
use crate::query::expr::Expr;
use crate::text::{owned, push_str};

use super::ddl::{ColumnSpec, DefaultValue, ForeignKeySpec, TableDef};
use super::generate::lines;
use super::render::{
    create_index, create_table, drop_index, drop_index_text, drop_table, drop_table_text,
    first_problem, index_problem, index_text, table_text, views,
};

verus! {

/// The `CREATE INDEX` statements of a table's indexes.
pub open spec fn table_index_texts(k: DialectKind, t: TableDef, n: int) -> Seq<Seq<char>>
    decreases n,
{
    if n <= 0 {
        seq![]
    } else {
        table_index_texts(k, t, n - 1).push(index_text(k, t.name@, t.indexes@[n - 1], t.if_not_exists))
    }
}

/// The statements of a `CREATE TABLE`: the table, then its indexes.
pub open spec fn table_statements(k: DialectKind, t: TableDef) -> Seq<Seq<char>> {
    seq![table_text(k, t)] + table_index_texts(k, t, t.indexes@.len() as int)
}

/// Builds schema changes for one migration, collecting the rendered
/// statements.
pub struct SchemaManager<'e, D: Dialect> {
    dialect: &'e D,
    collected: Vec<String>,
}

impl<'e, D: Dialect> SchemaManager<'e, D> {
    /// The backend the manager renders for.
    pub closed spec fn kind(&self) -> DialectKind {
        self.dialect.spec_kind()
    }

    /// The statements collected so far, in order.
    pub closed spec fn statements(&self) -> Seq<Seq<char>> {
        views(self.collected@)
    }

    /// Creates a manager that renders for `dialect` and collects the statements.
    pub fn collect(dialect: &'e D) -> (m: Self)
        ensures
            m.kind() == dialect.spec_kind(),
            m.statements().len() == 0,
    {
        SchemaManager { dialect, collected: Vec::new() }
    }

    /// Consumes the manager, returning the collected statements.
    pub fn into_collected(self) -> (r: Vec<String>)
        ensures
            views(r@) == self.statements(),
    {
        self.collected
    }

    /// Appends a rendered statement.
    fn dispatch(&mut self, statement: String)
        ensures
            final(self).kind() == old(self).kind(),
            final(self).statements() == old(self).statements().push(statement@),
    {
        let ghost before = self.collected@;
        self.collected.push(statement);
        assert(views(self.collected@) =~= views(before).push(statement@));
    }

    /// Appends rendered statements in order.
    fn dispatch_all(&mut self, statements: Vec<String>)
        ensures
            final(self).kind() == old(self).kind(),
            final(self).statements() == old(self).statements() + views(statements@),
    {
        let ghost start = self.statements();
        let mut i: usize = 0;
        while i < statements.len()
            invariant
                i <= statements@.len(),
                self.kind() == old(self).kind(),
                start == old(self).statements(),
                self.statements() == start + views(statements@.take(i as int)),
            decreases statements@.len() - i,
        {
            self.dispatch(statements[i].clone());
            assert(views(statements@.take(i + 1)) =~= views(statements@.take(i as int)).push(statements@[i as int]@));
            i = i + 1;
        }
        assert(statements@.take(i as int) == statements@);
    }

    /// Begins a `CREATE TABLE`.
    pub fn create_table(&mut self, name: &str) -> (b: CreateTable<'_, 'e, D>)
        ensures
            *b.schema == *old(self),
            *final(self) == *final(b.schema),
            b.def.name@ == name@,
            !b.def.if_not_exists,
            b.def.columns@.len() == 0,
            b.def.primary_key@.len() == 0,
            b.def.foreign_keys@.len() == 0,
            b.def.checks@.len() == 0,
            b.def.indexes@.len() == 0,
    {
        CreateTable { schema: self, def: TableDef::new(owned(name)) }
    }

    /// Begins a `DROP TABLE`.
    pub fn drop_table(&mut self, name: &str) -> (b: DropTable<'_, 'e, D>)
        ensures
            *b.schema == *old(self),
            *final(self) == *final(b.schema),
            b.name@ == name@,
            !b.if_exists,
    {
        DropTable { schema: self, name: owned(name), if_exists: false }
    }

    /// Begins a `CREATE INDEX` named `name`; set the table with
    /// [`CreateIndex::on_table`] and the columns before executing it.
    pub fn create_index(&mut self, name: &str) -> (b: CreateIndex<'_, 'e, D>)
        ensures
            *b.schema == *old(self),
            *final(self) == *final(b.schema),
            b.table@.len() == 0,
            b.def.name@ == name@,
            b.def.columns@.len() == 0,
            !b.def.unique,
            b.def.predicate is None,
            b.def.method is None,
            b.def.covering@.len() == 0,
            !b.if_not_exists,
    {
        CreateIndex {
            schema: self,
            table: String::new(),
            def: IndexDef::new(owned(name)),
            if_not_exists: false,
        }
    }

    /// Begins a `DROP INDEX` for the index named `name`.
    pub fn drop_index(&mut self, name: &str) -> (b: DropIndex<'_, 'e, D>)
        ensures
            *b.schema == *old(self),
            *final(self) == *final(b.schema),
            b.name@ == name@,
            !b.if_exists,
    {
        DropIndex { schema: self, name: owned(name), if_exists: false }
    }

    /// Begins a `CREATE TRIGGER` named `name` (a `BEFORE INSERT` trigger until
    /// set otherwise).
    pub fn create_trigger(&mut self, name: &str) -> (b: CreateTrigger<'_, 'e, D>)
        ensures
            *b.schema == *old(self),
            *final(self) == *final(b.schema),
            b.name@ == name@,
            b.timing == TriggerTiming::Before,
            b.event == TriggerEvent::Insert,
            b.table@.len() == 0,
            !b.for_each_row,
            b.body@.len() == 0,
    {
        CreateTrigger {
            schema: self,
            name: owned(name),
            timing: TriggerTiming::Before,
            event: TriggerEvent::Insert,
            table: String::new(),
            for_each_row: false,
            body: String::new(),
        }
    }

    /// Begins a `DROP TRIGGER` for the trigger named `name`.
    pub fn drop_trigger(&mut self, name: &str) -> (b: DropTrigger<'_, 'e, D>)
        ensures
            *b.schema == *old(self),
            *final(self) == *final(b.schema),
            b.name@ == name@,
            b.table is None,
            !b.if_exists,
    {
        DropTrigger { schema: self, name: owned(name), table: None, if_exists: false }
    }

    /// Adds verbatim SQL; the caller owns its correctness and escaping.
    pub fn raw(&mut self, sql: &str) -> (r: Result<(), OrmError>)
        ensures
            r is Ok,
            final(self).kind() == old(self).kind(),
            final(self).statements() == old(self).statements().push(sql@),
    {
        self.dispatch(owned(sql));
        Ok(())
    }

    /// Adds verbatim SQL only when the target dialect is `kind`; on any other
    /// dialect it contributes nothing, so checksums stay stable across the
    /// dialects a migration does not target.
    pub fn raw_for(&mut self, kind: DialectKind, sql: &str) -> (r: Result<(), OrmError>)
        ensures
            r is Ok,
            final(self).kind() == old(self).kind(),
            final(self).statements() == if old(self).kind() == kind {
                old(self).statements().push(sql@)
            } else {
                old(self).statements()
            },
    {
        if self.dialect.kind() == kind {
            self.dispatch(owned(sql));
        }
        Ok(())
    }
}

/// A `CREATE TABLE` builder.
pub struct CreateTable<'a, 'e, D: Dialect> {
    /// The manager the statement goes to.
    pub schema: &'a mut SchemaManager<'e, D>,
    /// The table being defined.
    pub def: TableDef,
}

impl<'a, 'e, D: Dialect> CreateTable<'a, 'e, D> {
    /// Adds `IF NOT EXISTS`.
    pub fn if_not_exists(self) -> (b: Self)
        ensures
            *b.schema == *old(self.schema),
            *final(b.schema) == *final(self.schema),
            b.def == (TableDef { if_not_exists: true, ..self.def }),
    {
        CreateTable { def: TableDef { if_not_exists: true, ..self.def }, ..self }
    }

    /// Adds a column.
    pub fn column(self, column: Column) -> (b: Self)
        ensures
            *b.schema == *old(self.schema),
            *final(b.schema) == *final(self.schema),
            b.def.columns@ == self.def.columns@.push(column.column_spec()),
            b.def == (TableDef { columns: b.def.columns, ..self.def }),
    {
        let mut def = self.def;
        def.columns.push(column.into_spec());
        CreateTable { def, ..self }
    }

    /// Declares a composite primary key over the named columns.
    pub fn primary_key(self, columns: &[&str]) -> (b: Self)
        ensures
            *b.schema == *old(self.schema),
            *final(b.schema) == *final(self.schema),
            views(b.def.primary_key@) == columns@.map_values(|c: &str| c@),
            b.def == (TableDef { primary_key: b.def.primary_key, ..self.def }),
    {
        let mut def = self.def;
        let mut names: Vec<String> = Vec::new();
        let mut i: usize = 0;
        while i < columns.len()
            invariant
                i <= columns@.len(),
                views(names@) == columns@.take(i as int).map_values(|c: &str| c@),
            decreases columns@.len() - i,
        {
            let ghost before = names@;
            names.push(owned(columns[i]));
            assert(views(names@) =~= views(before).push(columns@[i as int]@));
            assert(columns@.take(i + 1).map_values(|c: &str| c@) =~= columns@.take(i as int).map_values(|c: &str| c@).push(columns@[i as int]@));
            i = i + 1;
        }
        assert(columns@.take(i as int) == columns@);
        def.primary_key = names;
        CreateTable { def, ..self }
    }

    /// Adds a foreign key constraint.
    pub fn foreign_key(self, foreign_key: ForeignKey) -> (b: Self)
        ensures
            *b.schema == *old(self.schema),
            *final(b.schema) == *final(self.schema),
            b.def.foreign_keys@ == self.def.foreign_keys@.push(foreign_key.fk_spec()),
            b.def == (TableDef { foreign_keys: b.def.foreign_keys, ..self.def }),
    {
        let mut def = self.def;
        def.foreign_keys.push(foreign_key.into_spec());
        CreateTable { def, ..self }
    }

    /// Adds a table-level `CHECK (...)` constraint, rendered verbatim.
    pub fn check(self, expression: &str) -> (b: Self)
        ensures
            *b.schema == *old(self.schema),
            *final(b.schema) == *final(self.schema),
            views(b.def.checks@) == views(self.def.checks@).push(expression@),
            b.def == (TableDef { checks: b.def.checks, ..self.def }),
    {
        let mut def = self.def;
        let ghost before = def.checks@;
        def.checks.push(owned(expression));
        assert(views(def.checks@) =~= views(before).push(expression@));
        CreateTable { def, ..self }
    }

    /// Adds `created_at` and `updated_at` timestamp columns defaulting to the
    /// current time.
    pub fn timestamps(self) -> (b: Self)
        ensures
            *b.schema == *old(self.schema),
            *final(b.schema) == *final(self.schema),
            b.def.columns@.len() == self.def.columns@.len() + 2,
            b.def.columns@.take(self.def.columns@.len() as int) == self.def.columns@,
            is_timestamp_column(b.def.columns@[self.def.columns@.len() as int], "created_at"@),
            is_timestamp_column(b.def.columns@[self.def.columns@.len() + 1int], "updated_at"@),
            b.def == (TableDef { columns: b.def.columns, ..self.def }),
    {
        let mut def = self.def;
        let ghost before = def.columns@;
        def.columns.push(timestamp_column("created_at"));
        def.columns.push(timestamp_column("updated_at"));
        assert(def.columns@.take(before.len() as int) =~= before);
        CreateTable { def, ..self }
    }

    /// Renders the statement (and the statements of the table's indexes) and
    /// adds them; fails, adding nothing, on the first index the backend cannot
    /// create.
    pub fn execute(self) -> (r: Result<(), OrmError>)
        ensures
            final(self.schema).kind() == old(self.schema).kind(),
            match first_problem(old(self.schema).kind(), self.def.indexes@, 0) {
                None => r is Ok && final(self.schema).statements() == old(self.schema).statements()
                    + table_statements(old(self.schema).kind(), self.def),
                Some(m) => r matches Err(e) && e.spec_kind() == ErrorKind::Configuration
                    && e.spec_message() == m && final(self.schema).statements() == old(
                    self.schema,
                ).statements(),
            },
    {
        let CreateTable { schema, def } = self;
        let ghost k = schema.kind();
        let statements = create_table(schema.dialect, &def)?;
        proof {
            lemma_table_index_texts_len(k, def, def.indexes@.len() as int);
            assert forall|i: int| 0 <= i < table_index_texts(k, def, def.indexes@.len() as int).len() implies
                #[trigger] table_index_texts(k, def, def.indexes@.len() as int)[i] == statements@[i + 1]@ by {
                lemma_table_index_texts(k, def, def.indexes@.len() as int, i);
            }
            assert(views(statements@) =~= table_statements(k, def));
        }
        schema.dispatch_all(statements);
        Ok(())
    }
}

proof fn lemma_table_index_texts(k: DialectKind, t: TableDef, n: int, i: int)
    requires
        0 <= i < n <= t.indexes@.len(),
    ensures
        table_index_texts(k, t, n).len() == n,
        table_index_texts(k, t, n)[i] == index_text(k, t.name@, t.indexes@[i], t.if_not_exists),
    decreases n,
{
    if i < n - 1 {
        lemma_table_index_texts(k, t, n - 1, i);
    }
    lemma_table_index_texts_len(k, t, n - 1);
}

proof fn lemma_table_index_texts_len(k: DialectKind, t: TableDef, n: int)
    requires
        0 <= n <= t.indexes@.len(),
    ensures
        table_index_texts(k, t, n).len() == n,
    decreases n,
{
    if n > 0 {
        lemma_table_index_texts_len(k, t, n - 1);
    }
}

/// A `DROP TABLE` builder.
pub struct DropTable<'a, 'e, D: Dialect> {
    /// The manager the statement goes to.
    pub schema: &'a mut SchemaManager<'e, D>,
    /// The table to drop.
    pub name: String,
    /// Whether to add `IF EXISTS`.
    pub if_exists: bool,
}

impl<'a, 'e, D: Dialect> DropTable<'a, 'e, D> {
    /// Adds `IF EXISTS`.
    pub fn if_exists(self) -> (b: Self)
        ensures
            *b.schema == *old(self.schema),
            *final(b.schema) == *final(self.schema),
            b.name == self.name,
            b.if_exists,
    {
        DropTable { schema: self.schema, name: self.name, if_exists: true }
    }

    /// Renders and adds the statement.
    pub fn execute(self) -> (r: Result<(), OrmError>)
        ensures
            r is Ok,
            final(self.schema).kind() == old(self.schema).kind(),
            final(self.schema).statements() == old(self.schema).statements().push(
                drop_table_text(old(self.schema).kind(), self.name@, self.if_exists),
            ),
    {
        let DropTable { schema, name, if_exists } = self;
        let statement = drop_table(schema.dialect, name.as_str(), if_exists);
        schema.dispatch(statement);
        Ok(())
    }
}

/// When a trigger fires relative to the row event.
#[derive(Debug, Clone, Copy, PartialEq, Eq, Structural)]
pub enum TriggerTiming {
    /// `BEFORE` the event.
    Before,
    /// `AFTER` the event.
    After,
}

/// The keyword of a timing.
pub open spec fn timing_text(t: TriggerTiming) -> Seq<char> {
    match t {
        TriggerTiming::Before => "BEFORE"@,
        TriggerTiming::After => "AFTER"@,
    }
}

impl TriggerTiming {
    /// Returns the keyword.
    pub fn as_sql(self) -> (s: &'static str)
        ensures
            s@ == timing_text(self),
    {
        match self {
            TriggerTiming::Before => "BEFORE",
            TriggerTiming::After => "AFTER",
        }
    }
}

/// The row event a trigger fires on.
#[derive(Debug, Clone, Copy, PartialEq, Eq, Structural)]
pub enum TriggerEvent {
    /// `INSERT`.
    Insert,
    /// `UPDATE`.
    Update,
    /// `DELETE`.
    Delete,
}

/// The keyword of an event.
pub open spec fn event_text(e: TriggerEvent) -> Seq<char> {
    match e {
        TriggerEvent::Insert => "INSERT"@,
        TriggerEvent::Update => "UPDATE"@,
        TriggerEvent::Delete => "DELETE"@,
    }
}

impl TriggerEvent {
    /// Returns the keyword.
    pub fn as_sql(self) -> (s: &'static str)
        ensures
            s@ == event_text(self),
    {
        match self {
            TriggerEvent::Insert => "INSERT",
            TriggerEvent::Update => "UPDATE",
            TriggerEvent::Delete => "DELETE",
        }
    }
}

/// The `CREATE TRIGGER` statement: the header, then the raw body when there is
/// one.
pub open spec fn trigger_text(
    k: DialectKind,
    name: Seq<char>,
    timing: TriggerTiming,
    event: TriggerEvent,
    table: Seq<char>,
    for_each_row: bool,
    body: Seq<char>,
) -> Seq<char> {
    "CREATE TRIGGER "@ + quoted_identifier(k, name) + " "@ + timing_text(timing) + " "@ + event_text(
        event,
    ) + " ON "@ + quoted_identifier(k, table) + (if for_each_row {
        " FOR EACH ROW"@
    } else {
        seq![]
    }) + (if body.len() > 0 {
        " "@ + body
    } else {
        seq![]
    })
}

/// A `CREATE TRIGGER` builder; the body is raw, dialect-specific SQL.
pub struct CreateTrigger<'a, 'e, D: Dialect> {
    /// The manager the statement goes to.
    pub schema: &'a mut SchemaManager<'e, D>,
    /// The trigger name.
    pub name: String,
    /// When it fires.
    pub timing: TriggerTiming,
    /// The row event it fires on.
    pub event: TriggerEvent,
    /// The table it is attached to.
    pub table: String,
    /// Whether to add `FOR EACH ROW`.
    pub for_each_row: bool,
    /// The raw action body.
    pub body: String,
}

impl<'a, 'e, D: Dialect> CreateTrigger<'a, 'e, D> {
    /// The builder's settings, apart from the manager.
    pub open spec fn rest(&self) -> (String, TriggerTiming, TriggerEvent, String, bool, String) {
        (self.name, self.timing, self.event, self.table, self.for_each_row, self.body)
    }

    /// Sets the firing time.
    pub fn timing(self, timing: TriggerTiming) -> (b: Self)
        ensures
            *b.schema == *old(self.schema),
            *final(b.schema) == *final(self.schema),
            b.rest() == (CreateTrigger { timing, ..self }).rest(),
    {
        CreateTrigger { timing, ..self }
    }

    /// Sugar for `BEFORE`.
    pub fn before(self) -> (b: Self)
        ensures
            *b.schema == *old(self.schema),
            *final(b.schema) == *final(self.schema),
            b.rest() == (CreateTrigger { timing: TriggerTiming::Before, ..self }).rest(),
    {
        self.timing(TriggerTiming::Before)
    }

    /// Sugar for `AFTER`.
    pub fn after(self) -> (b: Self)
        ensures
            *b.schema == *old(self.schema),
            *final(b.schema) == *final(self.schema),
            b.rest() == (CreateTrigger { timing: TriggerTiming::After, ..self }).rest(),
    {
        self.timing(TriggerTiming::After)
    }

    /// Sets the row event.
    pub fn event(self, event: TriggerEvent) -> (b: Self)
        ensures
            *b.schema == *old(self.schema),
            *final(b.schema) == *final(self.schema),
            b.rest() == (CreateTrigger { event, ..self }).rest(),
    {
        CreateTrigger { event, ..self }
    }

    /// Sets the table the trigger is attached to.
    pub fn on(self, table: &str) -> (b: Self)
        ensures
            b.table@ == table@,
            *b.schema == *old(self.schema),
            *final(b.schema) == *final(self.schema),
            b.rest() == (CreateTrigger { table: b.table, ..self }).rest(),
    {
        CreateTrigger { table: owned(table), ..self }
    }

    /// Adds `FOR EACH ROW`.
    pub fn for_each_row(self) -> (b: Self)
        ensures
            *b.schema == *old(self.schema),
            *final(b.schema) == *final(self.schema),
            b.rest() == (CreateTrigger { for_each_row: true, ..self }).rest(),
    {
        CreateTrigger { for_each_row: true, ..self }
    }

    /// Sets the raw, dialect-specific action body.
    pub fn body(self, body: &str) -> (b: Self)
        ensures
            b.body@ == body@,
            *b.schema == *old(self.schema),
            *final(b.schema) == *final(self.schema),
            b.rest() == (CreateTrigger { body: b.body, ..self }).rest(),
    {
        CreateTrigger { body: owned(body), ..self }
    }

    /// Renders and adds the `CREATE TRIGGER`.
    pub fn execute(self) -> (r: Result<(), OrmError>)
        ensures
            r is Ok,
            final(self.schema).kind() == old(self.schema).kind(),
            final(self.schema).statements() == old(self.schema).statements().push(
                trigger_text(
                    old(self.schema).kind(),
                    self.name@,
                    self.timing,
                    self.event,
                    self.table@,
                    self.for_each_row,
                    self.body@,
                ),
            ),
    {
        let CreateTrigger { schema, name, timing, event, table, for_each_row, body } = self;
        let mut sql = String::new();
        push_str(&mut sql, "CREATE TRIGGER ");
        schema.dialect.quote_identifier(name.as_str(), &mut sql);
        push_str(&mut sql, " ");
        push_str(&mut sql, timing.as_sql());
        push_str(&mut sql, " ");
        push_str(&mut sql, event.as_sql());
        push_str(&mut sql, " ON ");
        schema.dialect.quote_identifier(table.as_str(), &mut sql);
        if for_each_row {
            push_str(&mut sql, " FOR EACH ROW");
        }
        if body.as_str().unicode_len() > 0 {
            push_str(&mut sql, " ");
            push_str(&mut sql, body.as_str());
        }
        assert(sql@ =~= trigger_text(schema.kind(), name@, timing, event, table@, for_each_row, body@));
        schema.dispatch(sql);
        Ok(())
    }
}

/// The `DROP TRIGGER` statement; the table is named on PostgreSQL only.
pub open spec fn drop_trigger_text(k: DialectKind, name: Seq<char>, table: Option<Seq<char>>, if_exists: bool) -> Seq<
    char,
> {
    "DROP TRIGGER "@ + (if if_exists {
        "IF EXISTS "@
    } else {
        seq![]
    }) + quoted_identifier(k, name) + match table {
        Some(t) => if k == DialectKind::Postgres {
            " ON "@ + quoted_identifier(k, t)
        } else {
            seq![]
        },
        None => seq![],
    }
}

/// A `DROP TRIGGER` builder.
pub struct DropTrigger<'a, 'e, D: Dialect> {
    /// The manager the statement goes to.
    pub schema: &'a mut SchemaManager<'e, D>,
    /// The trigger name.
    pub name: String,
    /// The table the trigger is on (PostgreSQL needs it).
    pub table: Option<String>,
    /// Whether to add `IF EXISTS`.
    pub if_exists: bool,
}

impl<'a, 'e, D: Dialect> DropTrigger<'a, 'e, D> {
    /// The builder's settings, apart from the manager.
    pub open spec fn rest(&self) -> (String, Option<String>, bool) {
        (self.name, self.table, self.if_exists)
    }

    /// Adds `IF EXISTS`.
    pub fn if_exists(self) -> (b: Self)
        ensures
            *b.schema == *old(self.schema),
            *final(b.schema) == *final(self.schema),
            b.rest() == (DropTrigger { if_exists: true, ..self }).rest(),
    {
        DropTrigger { if_exists: true, ..self }
    }

    /// Names the table the trigger is on.
    pub fn on(self, table: &str) -> (b: Self)
        ensures
            b.table matches Some(t) && t@ == table@,
            *b.schema == *old(self.schema),
            *final(b.schema) == *final(self.schema),
            b.rest() == (DropTrigger { table: b.table, ..self }).rest(),
    {
        DropTrigger { table: Some(owned(table)), ..self }
    }

    /// Renders and adds the `DROP TRIGGER`.
    pub fn execute(self) -> (r: Result<(), OrmError>)
        ensures
            r is Ok,
            final(self.schema).kind() == old(self.schema).kind(),
            final(self.schema).statements() == old(self.schema).statements().push(
                drop_trigger_text(
                    old(self.schema).kind(),
                    self.name@,
                    match self.table {
                        Some(t) => Some(t@),
                        None => None,
                    },
                    self.if_exists,
                ),
            ),
    {
        let DropTrigger { schema, name, table, if_exists } = self;
        let mut sql = String::new();
        push_str(&mut sql, "DROP TRIGGER ");
        if if_exists {
            push_str(&mut sql, "IF EXISTS ");
        }
        schema.dialect.quote_identifier(name.as_str(), &mut sql);
        if schema.dialect.kind() == DialectKind::Postgres {
            match &table {
                Some(t) => {
                    push_str(&mut sql, " ON ");
                    schema.dialect.quote_identifier(t.as_str(), &mut sql);
                },
                None => {},
            }
        }
        assert(sql@ =~= drop_trigger_text(schema.kind(), name@, match &table {
            Some(t) => Some(t@),
            None => None,
        }, if_exists));
        schema.dispatch(sql);
        Ok(())
    }
}

/// A `CREATE INDEX` builder.
pub struct CreateIndex<'a, 'e, D: Dialect> {
    /// The manager the statement goes to.
    pub schema: &'a mut SchemaManager<'e, D>,
    /// The table the index is on.
    pub table: String,
    /// The index being defined.
    pub def: IndexDef,
    /// Whether to add `IF NOT EXISTS`.
    pub if_not_exists: bool,
}

impl<'a, 'e, D: Dialect> CreateIndex<'a, 'e, D> {
    /// The builder's settings, apart from the manager.
    pub open spec fn rest(&self) -> (String, IndexDef, bool) {
        (self.table, self.def, self.if_not_exists)
    }

    /// Sets the table the index is on.
    pub fn on_table(self, table: &str) -> (b: Self)
        ensures
            b.table@ == table@,
            *b.schema == *old(self.schema),
            *final(b.schema) == *final(self.schema),
            b.rest() == (CreateIndex { table: b.table, ..self }).rest(),
    {
        CreateIndex { table: owned(table), ..self }
    }

    /// Marks the index `UNIQUE`.
    pub fn unique(self) -> (b: Self)
        ensures
            *b.schema == *old(self.schema),
            *final(b.schema) == *final(self.schema),
            b.def == (IndexDef { unique: true, ..self.def }),
    {
        let CreateIndex { schema, table, def, if_not_exists } = self;
        CreateIndex { schema, table, def: IndexDef { unique: true, ..def }, if_not_exists }
    }

    /// Adds a single column.
    pub fn column(self, column: IndexColumn) -> (b: Self)
        ensures
            b.def.columns@ == self.def.columns@.push(column),
            *b.schema == *old(self.schema),
            *final(b.schema) == *final(self.schema),
            b.rest() == (CreateIndex { def: IndexDef { columns: b.def.columns, ..self.def }, ..self }).rest(),
    {
        let CreateIndex { schema, table, mut def, if_not_exists } = self;
        def.columns.push(column);
        CreateIndex { schema, table, def, if_not_exists }
    }

    /// Adds several columns at once, in order.
    pub fn columns(self, columns: Vec<IndexColumn>) -> (b: Self)
        ensures
            b.def.columns@ == self.def.columns@ + columns@,
            *b.schema == *old(self.schema),
            *final(b.schema) == *final(self.schema),
            b.rest() == (CreateIndex { def: IndexDef { columns: b.def.columns, ..self.def }, ..self }).rest(),
    {
        let CreateIndex { schema, table, mut def, if_not_exists } = self;
        let mut more = columns;
        def.columns.append(&mut more);
        CreateIndex { schema, table, def, if_not_exists }
    }

    /// Sets the index method (`USING`); supported only on backends that have one.
    pub fn method(self, method: &str) -> (b: Self)
        ensures
            b.def.method matches Some(m) && m@ == method@,
            *b.schema == *old(self.schema),
            *final(b.schema) == *final(self.schema),
            b.rest() == (CreateIndex { def: IndexDef { method: b.def.method, ..self.def }, ..self }).rest(),
    {
        let CreateIndex { schema, table, def, if_not_exists } = self;
        CreateIndex { schema, table, def: IndexDef { method: Some(owned(method)), ..def }, if_not_exists }
    }

    /// Adds covering columns (`INCLUDE`); supported only on backends that have
    /// them.
    pub fn covering(self, columns: &[&str]) -> (b: Self)
        ensures
            views(b.def.covering@) == views(self.def.covering@) + columns@.map_values(|c: &str| c@),
            *b.schema == *old(self.schema),
            *final(b.schema) == *final(self.schema),
            b.rest() == (CreateIndex { def: IndexDef { covering: b.def.covering, ..self.def }, ..self }).rest(),
    {
        let CreateIndex { schema, table, mut def, if_not_exists } = self;
        let ghost start = views(def.covering@);
        let ghost def0 = def;
        let mut i: usize = 0;
        while i < columns.len()
            invariant
                i <= columns@.len(),
                def == (IndexDef { covering: def.covering, ..def0 }),
                views(def.covering@) == start + columns@.take(i as int).map_values(|c: &str| c@),
            decreases columns@.len() - i,
        {
            let ghost before = def.covering@;
            def.covering.push(owned(columns[i]));
            assert(views(def.covering@) =~= views(before).push(columns@[i as int]@));
            assert(columns@.take(i + 1).map_values(|c: &str| c@) =~= columns@.take(i as int).map_values(|c: &str| c@).push(columns@[i as int]@));
            i = i + 1;
        }
        assert(columns@.take(i as int) == columns@);
        CreateIndex { schema, table, def, if_not_exists }
    }

    /// Restricts the index to rows matching `predicate` (a partial index).
    pub fn where_(self, predicate: Expr) -> (b: Self)
        ensures
            *b.schema == *old(self.schema),
            *final(b.schema) == *final(self.schema),
            b.rest() == (CreateIndex { def: IndexDef { predicate: Some(predicate), ..self.def }, ..self }).rest(),
    {
        let CreateIndex { schema, table, def, if_not_exists } = self;
        CreateIndex { schema, table, def: IndexDef { predicate: Some(predicate), ..def }, if_not_exists }
    }

    /// Adds `IF NOT EXISTS`.
    pub fn if_not_exists(self) -> (b: Self)
        ensures
            *b.schema == *old(self.schema),
            *final(b.schema) == *final(self.schema),
            b.rest() == (CreateIndex { if_not_exists: true, ..self }).rest(),
    {
        CreateIndex { if_not_exists: true, ..self }
    }

    /// Renders and adds the statement; fails, adding nothing, when the index
    /// uses a feature the backend lacks.
    pub fn execute(self) -> (r: Result<(), OrmError>)
        ensures
            final(self.schema).kind() == old(self.schema).kind(),
            match index_problem(old(self.schema).kind(), self.def) {
                None => r is Ok && final(self.schema).statements() == old(self.schema).statements().push(
                    index_text(old(self.schema).kind(), self.table@, self.def, self.if_not_exists),
                ),
                Some(m) => r matches Err(e) && e.spec_kind() == ErrorKind::Configuration
                    && e.spec_message() == m && final(self.schema).statements() == old(
                    self.schema,
                ).statements(),
            },
    {
        let CreateIndex { schema, table, def, if_not_exists } = self;
        let statement = create_index(schema.dialect, table.as_str(), &def, if_not_exists)?;
        schema.dispatch(statement);
        Ok(())
    }
}

/// A `DROP INDEX` builder.
pub struct DropIndex<'a, 'e, D: Dialect> {
    /// The manager the statement goes to.
    pub schema: &'a mut SchemaManager<'e, D>,
    /// The index to drop.
    pub name: String,
    /// Whether to add `IF EXISTS`.
    pub if_exists: bool,
}

impl<'a, 'e, D: Dialect> DropIndex<'a, 'e, D> {
    /// The builder's settings, apart from the manager.
    pub open spec fn rest(&self) -> (String, bool) {
        (self.name, self.if_exists)
    }

    /// Adds `IF EXISTS`.
    pub fn if_exists(self) -> (b: Self)
        ensures
            *b.schema == *old(self.schema),
            *final(b.schema) == *final(self.schema),
            b.rest() == (DropIndex { if_exists: true, ..self }).rest(),
    {
        DropIndex { if_exists: true, ..self }
    }

    /// Renders and adds the statement.
    pub fn execute(self) -> (r: Result<(), OrmError>)
        ensures
            r is Ok,
            final(self.schema).kind() == old(self.schema).kind(),
            final(self.schema).statements() == old(self.schema).statements().push(
                drop_index_text(old(self.schema).kind(), self.name@, self.if_exists),
            ),
    {
        let DropIndex { schema, name, if_exists } = self;
        let statement = drop_index(schema.dialect, name.as_str(), if_exists);
        schema.dispatch(statement);
        Ok(())
    }
}

/// `c` is a `NOT NULL` timestamp column named `name` defaulting to the current
/// time.
pub open spec fn is_timestamp_column(c: ColumnSpec, name: Seq<char>) -> bool {
    &&& c.name@ == name
    &&& c.ty == SqlType::Timestamp
    &&& !c.nullable
    &&& !c.primary_key
    &&& !c.auto_increment
    &&& !c.unique
    &&& c.default matches Some(DefaultValue::CurrentTimestamp)
}

/// Builds a `created_at`/`updated_at` style timestamp column.
pub fn timestamp_column(name: &str) -> (c: ColumnSpec)
    ensures
        is_timestamp_column(c, name@),
{
    ColumnSpec {
        name: owned(name),
        ty: SqlType::Timestamp,
        nullable: false,
        primary_key: false,
        auto_increment: false,
        unique: false,
        default: Some(DefaultValue::CurrentTimestamp),
    }
}

/// A column definition for a migration (distinct from a model's column
/// description; this one builds DDL).
pub struct Column {
    spec: ColumnSpec,
}

impl Column {
    /// The column this builder describes.
    pub closed spec fn column_spec(&self) -> ColumnSpec {
        self.spec
    }

    /// Starts a nullable text column named `name` (set a type before using it).
    pub fn new(name: &str) -> (c: Self)
        ensures
            c.column_spec().name@ == name@,
            c.column_spec().ty == SqlType::Text,
            c.column_spec().nullable,
            !c.column_spec().primary_key,
            !c.column_spec().auto_increment,
            !c.column_spec().unique,
            c.column_spec().default is None,
    {
        let mut spec = ColumnSpec::new(owned(name), SqlType::Text);
        spec.nullable = true;
        Column { spec }
    }

    /// Sets the column's type.
    fn with_type(self, ty: SqlType) -> (c: Self)
        ensures
            c.column_spec() == (ColumnSpec { ty, ..self.column_spec() }),
    {
        Column { spec: ColumnSpec { ty, ..self.spec } }
    }

    /// Sets the type to a 32-bit integer.
    pub fn integer(self) -> (c: Self)
        ensures
            c.column_spec() == (ColumnSpec { ty: SqlType::Integer, ..self.column_spec() }),
    {
        self.with_type(SqlType::Integer)
    }

    /// Sets the type to a 64-bit integer.
    pub fn bigint(self) -> (c: Self)
        ensures
            c.column_spec() == (ColumnSpec { ty: SqlType::BigInt, ..self.column_spec() }),
    {
        self.with_type(SqlType::BigInt)
    }

    /// Sets the type to bounded text of at most `length` characters.
    pub fn varchar(self, length: u32) -> (c: Self)
        requires
            length > 0,
        ensures
            c.column_spec() == (ColumnSpec { ty: SqlType::Varchar(length), ..self.column_spec() }),
    {
        self.with_type(SqlType::Varchar(length))
    }

    /// Sets the type to unbounded text.
    pub fn text(self) -> (c: Self)
        ensures
            c.column_spec() == (ColumnSpec { ty: SqlType::Text, ..self.column_spec() }),
    {
        self.with_type(SqlType::Text)
    }

    /// Sets the type to a boolean.
    pub fn boolean(self) -> (c: Self)
        ensures
            c.column_spec() == (ColumnSpec { ty: SqlType::Boolean, ..self.column_spec() }),
    {
        self.with_type(SqlType::Boolean)
    }

    /// Sets the type to a floating point number.
    pub fn double(self) -> (c: Self)
        ensures
            c.column_spec() == (ColumnSpec { ty: SqlType::Real, ..self.column_spec() }),
    {
        self.with_type(SqlType::Real)
    }

    /// Sets the type to a timestamp.
    pub fn timestamp(self) -> (c: Self)
        ensures
            c.column_spec() == (ColumnSpec { ty: SqlType::Timestamp, ..self.column_spec() }),
    {
        self.with_type(SqlType::Timestamp)
    }

    /// Sets the type to a binary blob.
    pub fn blob(self) -> (c: Self)
        ensures
            c.column_spec() == (ColumnSpec { ty: SqlType::Blob, ..self.column_spec() }),
    {
        self.with_type(SqlType::Blob)
    }

    /// Sets the type to a JSON document.
    pub fn json(self) -> (c: Self)
        ensures
            c.column_spec() == (ColumnSpec { ty: SqlType::Json, ..self.column_spec() }),
    {
        self.with_type(SqlType::Json)
    }

    /// Sets the type to a UUID.
    pub fn uuid(self) -> (c: Self)
        ensures
            c.column_spec() == (ColumnSpec { ty: SqlType::Uuid, ..self.column_spec() }),
    {
        self.with_type(SqlType::Uuid)
    }

    /// Sets the type to an enum constrained to `variants`: a native `ENUM(...)`
    /// on MySQL, a text column with a `CHECK (... IN (...))` elsewhere.
    pub fn enum_type(self, name: &str, variants: &[&str]) -> (c: Self)
        ensures
            c.column_spec().ty matches SqlType::Enum { name: n, variants: v } && n@ == name@ && views(
                v@,
            ) == variants@.map_values(|x: &str| x@),
            c.column_spec() == (ColumnSpec { ty: c.column_spec().ty, ..self.column_spec() }),
    {
        let mut list: Vec<String> = Vec::new();
        let mut i: usize = 0;
        while i < variants.len()
            invariant
                i <= variants@.len(),
                views(list@) == variants@.take(i as int).map_values(|x: &str| x@),
            decreases variants@.len() - i,
        {
            let ghost before = list@;
            list.push(owned(variants[i]));
            assert(views(list@) =~= views(before).push(variants@[i as int]@));
            assert(variants@.take(i + 1).map_values(|x: &str| x@) =~= variants@.take(i as int).map_values(|x: &str| x@).push(variants@[i as int]@));
            i = i + 1;
        }
        assert(variants@.take(i as int) == variants@);
        self.with_type(SqlType::Enum { name: owned(name), variants: list })
    }

    /// Marks the column `NOT NULL`.
    pub fn not_null(self) -> (c: Self)
        ensures
            c.column_spec() == (ColumnSpec { nullable: false, ..self.column_spec() }),
    {
        Column { spec: ColumnSpec { nullable: false, ..self.spec } }
    }

    /// Marks the column nullable.
    pub fn nullable(self) -> (c: Self)
        ensures
            c.column_spec() == (ColumnSpec { nullable: true, ..self.column_spec() }),
    {
        Column { spec: ColumnSpec { nullable: true, ..self.spec } }
    }

    /// Marks the column (part of) the primary key.
    pub fn primary_key(self) -> (c: Self)
        ensures
            c.column_spec() == (ColumnSpec { primary_key: true, ..self.column_spec() }),
    {
        Column { spec: ColumnSpec { primary_key: true, ..self.spec } }
    }

    /// Marks the column auto-incrementing (with `primary_key`).
    pub fn auto_increment(self) -> (c: Self)
        ensures
            c.column_spec() == (ColumnSpec { auto_increment: true, ..self.column_spec() }),
    {
        Column { spec: ColumnSpec { auto_increment: true, ..self.spec } }
    }

    /// Adds a `UNIQUE` constraint.
    pub fn unique(self) -> (c: Self)
        ensures
            c.column_spec() == (ColumnSpec { unique: true, ..self.column_spec() }),
    {
        Column { spec: ColumnSpec { unique: true, ..self.spec } }
    }

    /// Sets a default value.
    pub fn default(self, value: DefaultValue) -> (c: Self)
        ensures
            c.column_spec() == (ColumnSpec { default: Some(value), ..self.column_spec() }),
    {
        Column { spec: ColumnSpec { default: Some(value), ..self.spec } }
    }

    /// Consumes the builder, returning the column spec.
    pub fn into_spec(self) -> (s: ColumnSpec)
        ensures
            s == self.column_spec(),
    {
        self.spec
    }
}

/// A foreign key constraint builder.
pub struct ForeignKey {
    spec: ForeignKeySpec,
}

impl ForeignKey {
    /// The constraint this builder describes.
    pub closed spec fn fk_spec(&self) -> ForeignKeySpec {
        self.spec
    }

    /// Starts an empty foreign key.
    pub fn new() -> (f: Self)
        ensures
            f.fk_spec().columns@.len() == 0,
            f.fk_spec().ref_table@.len() == 0,
            f.fk_spec().ref_columns@.len() == 0,
            f.fk_spec().on_delete == ForeignKeyAction::NoAction,
            f.fk_spec().on_update == ForeignKeyAction::NoAction,
    {
        ForeignKey {
            spec: ForeignKeySpec {
                columns: Vec::new(),
                ref_table: String::new(),
                ref_columns: Vec::new(),
                on_delete: ForeignKeyAction::NoAction,
                on_update: ForeignKeyAction::NoAction,
            },
        }
    }

    /// Adds a local column. The `table` is the table being created; it is
    /// accepted for readability and is otherwise implied.
    pub fn from(self, table: &str, column: &str) -> (f: Self)
        ensures
            views(f.fk_spec().columns@) == views(self.fk_spec().columns@).push(column@),
            f.fk_spec() == (ForeignKeySpec { columns: f.fk_spec().columns, ..self.fk_spec() }),
    {
        let ForeignKey { mut spec } = self;
        let ghost before = spec.columns@;
        spec.columns.push(owned(column));
        assert(views(spec.columns@) =~= views(before).push(column@));
        ForeignKey { spec }
    }

    /// Sets the referenced table and adds a referenced column.
    pub fn to(self, table: &str, column: &str) -> (f: Self)
        ensures
            f.fk_spec().ref_table@ == table@,
            views(f.fk_spec().ref_columns@) == views(self.fk_spec().ref_columns@).push(column@),
            f.fk_spec() == (ForeignKeySpec {
                ref_table: f.fk_spec().ref_table,
                ref_columns: f.fk_spec().ref_columns,
                ..self.fk_spec()
            }),
    {
        let ForeignKey { mut spec } = self;
        let ghost before = spec.ref_columns@;
        spec.ref_table = owned(table);
        spec.ref_columns.push(owned(column));
        assert(views(spec.ref_columns@) =~= views(before).push(column@));
        ForeignKey { spec }
    }

    /// Sets the `ON DELETE` action.
    pub fn on_delete(self, action: ForeignKeyAction) -> (f: Self)
        ensures
            f.fk_spec() == (ForeignKeySpec { on_delete: action, ..self.fk_spec() }),
    {
        ForeignKey { spec: ForeignKeySpec { on_delete: action, ..self.spec } }
    }

    /// Sets the `ON UPDATE` action.
    pub fn on_update(self, action: ForeignKeyAction) -> (f: Self)
        ensures
            f.fk_spec() == (ForeignKeySpec { on_update: action, ..self.fk_spec() }),
    {
        ForeignKey { spec: ForeignKeySpec { on_update: action, ..self.spec } }
    }

    /// Consumes the builder, returning the spec.
    pub fn into_spec(self) -> (s: ForeignKeySpec)
        ensures
            s == self.fk_spec(),
    {
        self.spec
    }
}

} // verus!
