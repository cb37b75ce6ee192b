//! The `[package.metadata.tork]` table of a crate's `Cargo.toml`.
//!
//! This is the project-level source of truth for the target SQL dialect and the
//! migration tooling settings. A missing table or field falls back to defaults.

use vstd::prelude::*;

use crate::text::{chars_of, owned, push_char, trim, trim_bounds};
use toml::map::Map as TomlMap;
use toml::Value as TomlValue;

verus! {

/// `c` with ASCII upper-case letters mapped to lower case.
pub open spec fn ascii_lower_char(c: char) -> char {
    if 'A' <= c && c <= 'Z' {
        ((c as u32) + 32) as char
    } else {
        c
    }
}

/// `s` with ASCII upper-case letters mapped to lower case
/// (`str::to_ascii_lowercase`).
pub open spec fn ascii_lower(s: Seq<char>) -> Seq<char> {
    s.map_values(|c: char| ascii_lower_char(c))
}

/// `c` with an ASCII upper-case letter mapped to lower case.
pub fn ascii_lower_char_exec(c: char) -> (r: char)
    ensures
        r == ascii_lower_char(c),
{
    if 'A' <= c && c <= 'Z' {
        let b: u8 = (c as u8) + 32;
        b as char
    } else {
        c
    }
}

/// `value` trimmed of whitespace and lower-cased in ASCII.
pub fn trimmed_ascii_lower(value: &str) -> (r: Vec<char>)
    ensures
        r@ == ascii_lower(trim(value@)),
{
    let chars = chars_of(value);
    let (a, b) = trim_bounds(&chars);
    let mut r: Vec<char> = Vec::new();
    let mut i = a;
    while i < b
        invariant
            a <= i <= b <= chars@.len(),
            r@ == ascii_lower(chars@.subrange(a as int, i as int)),
        decreases b - i,
    {
        r.push(ascii_lower_char_exec(chars[i]));
        i = i + 1;
        assert(ascii_lower(chars@.subrange(a as int, i as int)) == ascii_lower(
            chars@.subrange(a as int, i - 1),
        ).push(ascii_lower_char(chars@[i - 1])));
    }
    r
}

/// Whether the characters `v` spell `lit`.
pub fn spells(v: &Vec<char>, lit: &str) -> (b: bool)
    ensures
        b == (v@ == lit@),
{
    let l = chars_of(lit);
    if v.len() != l.len() {
        return false;
    }
    let mut i: usize = 0;
    while i < v.len()
        invariant
            v@.len() == l@.len(),
            i <= v@.len(),
            l@ == lit@,
            forall|k: int| 0 <= k < i ==> v@[k] == l@[k],
        decreases v@.len() - i,
    {
        if v[i] != l[i] {
            return false;
        }
        i = i + 1;
    }
    assert(v@ == l@);
    true
}

/// The target SQL dialect declared for a project.
#[derive(Debug, Clone, Copy, PartialEq, Eq, Structural)]
pub enum ConfigDialect {
    /// SQLite (the default when no dialect is declared).
    Sqlite,
    /// PostgreSQL.
    Postgres,
}

/// The dialect a name denotes, accepting the common spellings (case-insensitive,
/// surrounding whitespace ignored).
pub open spec fn dialect_of_name(value: Seq<char>) -> Option<ConfigDialect> {
    let v = ascii_lower(trim(value));
    if v == "sqlite"@ {
        Some(ConfigDialect::Sqlite)
    } else if v == "postgres"@ || v == "postgresql"@ {
        Some(ConfigDialect::Postgres)
    } else {
        None
    }
}

/// The name of the first index feature in use that `d` lacks.
pub open spec fn unsupported_feature(
    d: ConfigDialect,
    has_method: bool,
    has_include: bool,
    has_opclass: bool,
) -> Option<Seq<char>> {
    let full = d == ConfigDialect::Postgres;
    if has_method && !full {
        Some("index method (USING)"@)
    } else if has_include && !full {
        Some("covering index columns (INCLUDE)"@)
    } else if has_opclass && !full {
        Some("index operator classes"@)
    } else {
        None
    }
}

impl ConfigDialect {
    /// Parses a dialect name, accepting the common spellings.
    pub fn parse(value: &str) -> (d: Option<Self>)
        ensures
            d == dialect_of_name(value@),
    {
        let v = trimmed_ascii_lower(value);
        if spells(&v, "sqlite") {
            Some(ConfigDialect::Sqlite)
        } else if spells(&v, "postgres") || spells(&v, "postgresql") {
            Some(ConfigDialect::Postgres)
        } else {
            None
        }
    }

    /// Returns the canonical name of this dialect.
    pub fn as_str(self) -> (s: &'static str)
        ensures
            self == ConfigDialect::Sqlite ==> s@ == "sqlite"@,
            self == ConfigDialect::Postgres ==> s@ == "postgres"@,
    {
        match self {
            ConfigDialect::Sqlite => "sqlite",
            ConfigDialect::Postgres => "postgres",
        }
    }

    /// Whether the dialect supports choosing an index method (`USING`).
    pub fn supports_index_method(self) -> (b: bool)
        ensures
            b == (self == ConfigDialect::Postgres),
    {
        self == ConfigDialect::Postgres
    }

    /// Whether the dialect supports covering index columns (`INCLUDE`).
    pub fn supports_index_include(self) -> (b: bool)
        ensures
            b == (self == ConfigDialect::Postgres),
    {
        self == ConfigDialect::Postgres
    }

    /// Whether the dialect supports per-column index operator classes.
    pub fn supports_index_opclass(self) -> (b: bool)
        ensures
            b == (self == ConfigDialect::Postgres),
    {
        self == ConfigDialect::Postgres
    }

    /// Whether the dialect has a native JSON column type.
    pub fn supports_json(self) -> (b: bool)
        ensures
            b == (self == ConfigDialect::Postgres),
    {
        self == ConfigDialect::Postgres
    }

    /// Whether the dialect has a native UUID column type.
    pub fn supports_uuid(self) -> (b: bool)
        ensures
            b == (self == ConfigDialect::Postgres),
    {
        self == ConfigDialect::Postgres
    }

    /// Whether the dialect has native array column types.
    pub fn supports_array(self) -> (b: bool)
        ensures
            b == (self == ConfigDialect::Postgres),
    {
        self == ConfigDialect::Postgres
    }

    /// Returns the human-readable name of the first index feature in use that this
    /// dialect does not support, or `None` when every used feature is supported.
    pub fn unsupported_index_feature(
        self,
        has_method: bool,
        has_include: bool,
        has_opclass: bool,
    ) -> (r: Option<&'static str>)
        ensures
            r.is_some() == unsupported_feature(self, has_method, has_include, has_opclass).is_some(),
            r matches Some(s) ==> s@ == unsupported_feature(
                self,
                has_method,
                has_include,
                has_opclass,
            ).unwrap(),
    {
        if has_method && !self.supports_index_method() {
            return Some("index method (USING)");
        }
        if has_include && !self.supports_index_include() {
            return Some("covering index columns (INCLUDE)");
        }
        if has_opclass && !self.supports_index_opclass() {
            return Some("index operator classes");
        }
        None
    }
}

/// How revision identifiers in migration file names are generated.
#[derive(Debug, Clone, Copy, PartialEq, Eq, Structural)]
pub enum RevisionStyle {
    /// A random short hash (the default).
    Hash,
    /// A zero-padded, incrementing sequence number.
    Sequence,
}

/// The revision style a name denotes.
pub open spec fn style_of_name(value: Seq<char>) -> Option<RevisionStyle> {
    let v = ascii_lower(trim(value));
    if v == "hash"@ {
        Some(RevisionStyle::Hash)
    } else if v == "sequence"@ {
        Some(RevisionStyle::Sequence)
    } else {
        None
    }
}

impl RevisionStyle {
    /// Parses a revision style name.
    pub fn parse(value: &str) -> (s: Option<Self>)
        ensures
            s == style_of_name(value@),
    {
        let v = trimmed_ascii_lower(value);
        if spells(&v, "hash") {
            Some(RevisionStyle::Hash)
        } else if spells(&v, "sequence") {
            Some(RevisionStyle::Sequence)
        } else {
            None
        }
    }
}

/// Migration tooling settings.
#[derive(Debug, Clone)]
pub struct Migrations {
    /// The directory migration files live in.
    pub dir: String,
    /// The file-name template. Tokens: `{rev}`, `{slug}`, `{year}`, `{month}`,
    /// `{day}`, `{hour}`, `{minute}`, `{second}`.
    pub file_template: String,
    /// How `{rev}` is generated.
    pub revision_style: RevisionStyle,
    /// The maximum length of the `{slug}` token.
    pub truncate_slug_length: usize,
    /// The timezone for date tokens; `None` means UTC.
    pub timezone: Option<String>,
}

impl Migrations {
    /// The default settings: `migrations`, `{rev}_{slug}`, hash revisions, slugs
    /// of at most 40 characters, UTC.
    pub fn default() -> (m: Self)
        ensures
            m.dir@ == "migrations"@,
            m.file_template@ == "{rev}_{slug}"@,
            m.revision_style == RevisionStyle::Hash,
            m.truncate_slug_length == 40,
            m.timezone.is_none(),
    {
        Migrations {
            dir: owned("migrations"),
            file_template: owned("{rev}_{slug}"),
            revision_style: RevisionStyle::Hash,
            truncate_slug_length: 40,
            timezone: None,
        }
    }
}

/// The parsed `[package.metadata.tork]` configuration.
#[derive(Debug, Clone)]
pub struct TorkConfig {
    /// The target SQL dialect, or `None` when none was declared.
    pub dialect: Option<ConfigDialect>,
    /// Migration tooling settings.
    pub migrations: Migrations,
}

/// The raw values of the `[package.metadata.tork]` keys, as read from the TOML
/// document (`None` where a key is absent or not of the expected type).
pub struct RawSettings {
    /// `dialect`.
    pub dialect: Option<String>,
    /// `migrations.dir`.
    pub dir: Option<String>,
    /// `migrations.file_template`.
    pub file_template: Option<String>,
    /// `migrations.revision_style`.
    pub revision_style: Option<String>,
    /// `migrations.truncate_slug_length`.
    pub truncate_slug_length: Option<i64>,
    /// `migrations.timezone`.
    pub timezone: Option<String>,
}

/// `toml::Table`, the `toml` crate's ordered map from keys to values.
#[verifier::external_type_specification]
#[verifier::external_body]
#[verifier::reject_recursive_types(K)]
#[verifier::reject_recursive_types(V)]
pub struct ExTomlMap<K, V>(TomlMap<K, V>);

/// `toml::Value`, one TOML value.
#[verifier::external_type_specification]
#[verifier::external_body]
pub struct ExTomlValue(TomlValue);

/// A TOML value as plain data: a string, an integer, a table of further values,
/// or any other kind of value (float, boolean, datetime, array).
pub ghost enum TomlNode {
    Str(Seq<char>),
    Int(i64),
    Table(Map<Seq<char>, TomlNode>),
    Other,
}

/// The document that `<toml::Table as FromStr>::from_str` reads from `text`, as
/// plain data (`None` when the text does not parse).
pub uninterp spec fn toml_document(text: Seq<char>) -> Option<Map<Seq<char>, TomlNode>>;

/// What a `toml::Table` holds: its keys and, for each, its value as plain data.
pub uninterp spec fn table_contents(t: toml::Table) -> Map<Seq<char>, TomlNode>;

/// One entry of a TOML table, as the library reads it.
enum TomlEntry<'a> {
    /// A string.
    Str(&'a str),
    /// An integer.
    Int(i64),
    /// A nested table.
    Table(&'a toml::Table),
    /// Any other kind of value.
    Other,
}

/// Whether the entry `e` is the plain value `node`.
spec fn entry_is(e: TomlEntry, node: TomlNode) -> bool {
    match e {
        TomlEntry::Str(s) => node == TomlNode::Str(s@),
        TomlEntry::Int(i) => node == TomlNode::Int(i),
        TomlEntry::Table(t) => node == TomlNode::Table(table_contents(*t)),
        TomlEntry::Other => node is Other,
    }
}

/// Parses `text` as a TOML table (`<toml::Table as FromStr>::from_str`); the
/// parse error is dropped. The contract names the parsed document.
#[verifier::external_body]
fn parse_toml_table(text: &str) -> (r: Option<toml::Table>)
    ensures
        match r {
            Some(t) => toml_document(text@) == Some(table_contents(t)),
            None => toml_document(text@) is None,
        },
{
    text.parse::<toml::Table>().ok()
}

/// Looks `key` up in the table (`toml::map::Map::get`) and tells the kind of the
/// value found apart (`String`, `Integer`, `Table`, or another kind).
#[verifier::external_body]
fn table_get<'a>(t: &'a toml::Table, key: &str) -> (r: Option<TomlEntry<'a>>)
    ensures
        match r {
            Some(e) => table_contents(*t).contains_key(key@) && entry_is(e, table_contents(*t)[key@]),
            None => !table_contents(*t).contains_key(key@),
        },
{
    match t.get(key) {
        Some(TomlValue::String(s)) => Some(TomlEntry::Str(s.as_str())),
        Some(TomlValue::Integer(i)) => Some(TomlEntry::Int(*i)),
        Some(TomlValue::Table(sub)) => Some(TomlEntry::Table(sub)),
        Some(_) => Some(TomlEntry::Other),
        None => None,
    }
}

/// The table under `key` in `m`, if there is one.
pub open spec fn node_table(m: Map<Seq<char>, TomlNode>, key: Seq<char>) -> Option<Map<Seq<char>, TomlNode>> {
    if m.contains_key(key) {
        match m[key] {
            TomlNode::Table(t) => Some(t),
            _ => None,
        }
    } else {
        None
    }
}

/// The string under `key` in `m`, if there is one.
pub open spec fn node_str(m: Map<Seq<char>, TomlNode>, key: Seq<char>) -> Option<Seq<char>> {
    if m.contains_key(key) {
        match m[key] {
            TomlNode::Str(s) => Some(s),
            _ => None,
        }
    } else {
        None
    }
}

/// The integer under `key` in `m`, if there is one.
pub open spec fn node_int(m: Map<Seq<char>, TomlNode>, key: Seq<char>) -> Option<i64> {
    if m.contains_key(key) {
        match m[key] {
            TomlNode::Int(i) => Some(i),
            _ => None,
        }
    } else {
        None
    }
}

/// The table under `key` of an optional table.
pub open spec fn sub_table(m: Option<Map<Seq<char>, TomlNode>>, key: Seq<char>) -> Option<Map<Seq<char>, TomlNode>> {
    match m {
        Some(t) => node_table(t, key),
        None => None,
    }
}

/// The string under `key` of an optional table.
pub open spec fn sub_str(m: Option<Map<Seq<char>, TomlNode>>, key: Seq<char>) -> Option<Seq<char>> {
    match m {
        Some(t) => node_str(t, key),
        None => None,
    }
}

/// The integer under `key` of an optional table.
pub open spec fn sub_int(m: Option<Map<Seq<char>, TomlNode>>, key: Seq<char>) -> Option<i64> {
    match m {
        Some(t) => node_int(t, key),
        None => None,
    }
}

/// The `[package.metadata.tork]` table of a TOML document.
pub open spec fn tork_table(doc: Option<Map<Seq<char>, TomlNode>>) -> Option<Map<Seq<char>, TomlNode>> {
    sub_table(sub_table(sub_table(doc, "package"@), "metadata"@), "tork"@)
}

/// Whether the raw settings are the values under `[package.metadata.tork]` of the
/// TOML document `text` (the strings and the integer of the expected keys, and
/// `None` for a key that is absent or holds another kind of value).
pub open spec fn settings_read_from(raw: RawSettings, text: Seq<char>) -> bool {
    let tork = tork_table(toml_document(text));
    let migrations = sub_table(tork, "migrations"@);
    &&& opt_str_is(raw.dialect, sub_str(tork, "dialect"@))
    &&& opt_str_is(raw.dir, sub_str(migrations, "dir"@))
    &&& opt_str_is(raw.file_template, sub_str(migrations, "file_template"@))
    &&& opt_str_is(raw.revision_style, sub_str(migrations, "revision_style"@))
    &&& raw.truncate_slug_length == sub_int(migrations, "truncate_slug_length"@)
    &&& opt_str_is(raw.timezone, sub_str(migrations, "timezone"@))
}

/// The table under `key` in `t`, if there is one.
fn get_table<'a>(t: &'a toml::Table, key: &str) -> (r: Option<&'a toml::Table>)
    ensures
        match r {
            Some(sub) => node_table(table_contents(*t), key@) == Some(table_contents(*sub)),
            None => node_table(table_contents(*t), key@) is None,
        },
{
    match table_get(t, key) {
        Some(TomlEntry::Table(sub)) => Some(sub),
        _ => None,
    }
}

/// The string under `key` in `t`, if there is one.
fn get_string(t: &toml::Table, key: &str) -> (r: Option<String>)
    ensures
        opt_str_is(r, node_str(table_contents(*t), key@)),
{
    match table_get(t, key) {
        Some(TomlEntry::Str(s)) => Some(owned(s)),
        _ => None,
    }
}

/// The integer under `key` in `t`, if there is one.
fn get_integer(t: &toml::Table, key: &str) -> (r: Option<i64>)
    ensures
        r == node_int(table_contents(*t), key@),
{
    match table_get(t, key) {
        Some(TomlEntry::Int(i)) => Some(i),
        _ => None,
    }
}

/// Whether an optional string holds exactly the optional text `t`.
pub open spec fn opt_str_is(s: Option<String>, t: Option<Seq<char>>) -> bool {
    s.is_some() == t.is_some() && (s matches Some(v) ==> v@ == t.unwrap())
}

/// Whether `c` is the configuration the raw settings describe: each present and
/// well-formed setting overrides its default; an unknown dialect or revision
/// style and a non-positive slug length are ignored.
pub open spec fn config_from(c: TorkConfig, raw: RawSettings) -> bool {
    &&& c.dialect == (match raw.dialect {
        Some(d) => dialect_of_name(d@),
        None => None,
    })
    &&& c.migrations.dir@ == (match raw.dir {
        Some(d) => d@,
        None => "migrations"@,
    })
    &&& c.migrations.file_template@ == (match raw.file_template {
        Some(t) => t@,
        None => "{rev}_{slug}"@,
    })
    &&& c.migrations.revision_style == (match raw.revision_style {
        Some(s) => match style_of_name(s@) {
            Some(style) => style,
            None => RevisionStyle::Hash,
        },
        None => RevisionStyle::Hash,
    })
    &&& c.migrations.truncate_slug_length == (match raw.truncate_slug_length {
        Some(n) => if n > 0 {
            n as usize
        } else {
            40usize
        },
        None => 40usize,
    })
    &&& opt_str_is(c.migrations.timezone, match raw.timezone {
        Some(t) => Some(t@),
        None => None,
    })
}

impl TorkConfig {
    /// The configuration of a project that declares nothing.
    pub fn default() -> (c: Self)
        ensures
            c.dialect.is_none(),
            c.migrations.dir@ == "migrations"@,
            c.migrations.file_template@ == "{rev}_{slug}"@,
            c.migrations.revision_style == RevisionStyle::Hash,
            c.migrations.truncate_slug_length == 40,
            c.migrations.timezone.is_none(),
    {
        TorkConfig { dialect: None, migrations: Migrations::default() }
    }

    /// The declared dialect, or SQLite when none was declared.
    pub fn dialect_or_default(&self) -> (d: ConfigDialect)
        ensures
            d == (match self.dialect {
                Some(x) => x,
                None => ConfigDialect::Sqlite,
            }),
    {
        match self.dialect {
            Some(d) => d,
            None => ConfigDialect::Sqlite,
        }
    }

    /// Builds the configuration from the raw settings read out of a `Cargo.toml`.
    pub fn from_settings(raw: RawSettings) -> (c: Self)
        ensures
            config_from(c, raw),
    {
        let mut config = TorkConfig::default();
        let ghost raw0 = raw;
        let RawSettings { dialect, dir, file_template, revision_style, truncate_slug_length, timezone } = raw;
        if let Some(d) = dialect {
            if let Some(parsed) = ConfigDialect::parse(d.as_str()) {
                config.dialect = Some(parsed);
            }
        }
        if let Some(d) = dir {
            config.migrations.dir = d;
        }
        if let Some(t) = file_template {
            config.migrations.file_template = t;
        }
        if let Some(s) = revision_style {
            if let Some(style) = RevisionStyle::parse(s.as_str()) {
                config.migrations.revision_style = style;
            }
        }
        if let Some(n) = truncate_slug_length {
            if n > 0 {
                config.migrations.truncate_slug_length = n as usize;
            }
        }
        if let Some(t) = timezone {
            config.migrations.timezone = Some(t);
        }
        config
    }

    /// Reads the raw `[package.metadata.tork]` settings out of a `Cargo.toml`.
    pub fn read_settings(text: &str) -> (raw: RawSettings)
        ensures
            settings_read_from(raw, text@),
    {
        let mut raw = RawSettings {
            dialect: None,
            dir: None,
            file_template: None,
            revision_style: None,
            truncate_slug_length: None,
            timezone: None,
        };
        let table = match parse_toml_table(text) {
            Some(t) => t,
            None => return raw,
        };
        let package = match get_table(&table, "package") {
            Some(p) => p,
            None => return raw,
        };
        let metadata = match get_table(package, "metadata") {
            Some(m) => m,
            None => return raw,
        };
        let tork = match get_table(metadata, "tork") {
            Some(t) => t,
            None => return raw,
        };
        raw.dialect = get_string(tork, "dialect");
        if let Some(migrations) = get_table(tork, "migrations") {
            raw.dir = get_string(migrations, "dir");
            raw.file_template = get_string(migrations, "file_template");
            raw.revision_style = get_string(migrations, "revision_style");
            raw.truncate_slug_length = get_integer(migrations, "truncate_slug_length");
            raw.timezone = get_string(migrations, "timezone");
        }
        raw
    }

    /// Parses the configuration from the contents of a `Cargo.toml`.
    ///
    /// A document that does not parse, a missing `[package.metadata.tork]` table,
    /// or any missing field falls back to the defaults.
    pub fn from_cargo_toml_str(text: &str) -> (c: Self)
        ensures
            exists|raw: RawSettings| settings_read_from(raw, text@) && config_from(c, raw),
    {
        let raw = Self::read_settings(text);
        let ghost r = raw;
        let c = Self::from_settings(raw);
        assert(settings_read_from(r, text@) && config_from(c, r));
        c
    }
}

} // verus!
