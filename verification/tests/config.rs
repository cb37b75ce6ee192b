//! Reading `[package.metadata.tork]` and the dialect capabilities.

use tork_orm::config::{ConfigDialect, RevisionStyle, TorkConfig};

#[test]
fn empty_or_missing_table_yields_defaults() {
    let config = TorkConfig::from_cargo_toml_str("[package]\nname = \"x\"\n");
    assert_eq!(config.dialect, None);
    assert_eq!(config.dialect_or_default(), ConfigDialect::Sqlite);
    assert_eq!(config.migrations.dir, "migrations");
    assert_eq!(config.migrations.file_template, "{rev}_{slug}");
    assert_eq!(config.migrations.revision_style, RevisionStyle::Hash);
    assert_eq!(config.migrations.truncate_slug_length, 40);
    assert_eq!(config.migrations.timezone, None);
}

#[test]
fn reads_dialect_and_migration_settings() {
    let text = r#"
        [package]
        name = "demo"

        [package.metadata.tork]
        dialect = "postgresql"

        [package.metadata.tork.migrations]
        dir = "db/changes"
        file_template = "{year}{month}{day}_{rev}_{slug}"
        revision_style = "sequence"
        truncate_slug_length = 20
        timezone = "Europe/Istanbul"
    "#;
    let config = TorkConfig::from_cargo_toml_str(text);
    assert_eq!(config.dialect, Some(ConfigDialect::Postgres));
    assert_eq!(config.migrations.dir, "db/changes");
    assert_eq!(config.migrations.file_template, "{year}{month}{day}_{rev}_{slug}");
    assert_eq!(config.migrations.revision_style, RevisionStyle::Sequence);
    assert_eq!(config.migrations.truncate_slug_length, 20);
    assert_eq!(config.migrations.timezone.as_deref(), Some("Europe/Istanbul"));
}

#[test]
fn dialect_capabilities_match_expectations() {
    assert!(!ConfigDialect::Sqlite.supports_index_opclass());
    assert!(ConfigDialect::Postgres.supports_index_opclass());
    assert!(!ConfigDialect::Sqlite.supports_index_include());
    assert!(ConfigDialect::Postgres.supports_index_method());
}

#[test]
fn unknown_dialect_is_treated_as_undeclared() {
    let text = "[package.metadata.tork]\ndialect = \"oracle\"\n";
    assert_eq!(TorkConfig::from_cargo_toml_str(text).dialect, None);
}

#[test]
fn unsupported_index_feature_detection() {
    // SQLite supports none of the three; it reports the first one in use.
    assert_eq!(
        ConfigDialect::Sqlite.unsupported_index_feature(true, false, false),
        Some("index method (USING)")
    );
    assert_eq!(
        ConfigDialect::Sqlite.unsupported_index_feature(false, true, false),
        Some("covering index columns (INCLUDE)")
    );
    assert_eq!(
        ConfigDialect::Sqlite.unsupported_index_feature(false, false, true),
        Some("index operator classes")
    );
    assert_eq!(
        ConfigDialect::Sqlite.unsupported_index_feature(false, false, false),
        None
    );
    // PostgreSQL supports all three.
    assert_eq!(
        ConfigDialect::Postgres.unsupported_index_feature(true, true, true),
        None
    );
}

#[test]
fn dialect_and_style_names_are_case_insensitive() {
    assert_eq!(ConfigDialect::parse(" Postgres "), Some(ConfigDialect::Postgres));
    assert_eq!(ConfigDialect::parse("SQLite"), Some(ConfigDialect::Sqlite));
    assert_eq!(ConfigDialect::parse("sqlite3"), None);
    assert_eq!(ConfigDialect::parse("mysql"), None);
    assert_eq!(RevisionStyle::parse("Sequence"), Some(RevisionStyle::Sequence));
    assert_eq!(RevisionStyle::parse("random"), None);
}

#[test]
fn a_non_positive_slug_length_falls_back_to_the_default() {
    let text = "[package.metadata.tork.migrations]\ntruncate_slug_length = 0\nrevision_style = \"bogus\"\n";
    let config = TorkConfig::from_cargo_toml_str(text);
    assert_eq!(config.migrations.truncate_slug_length, 40);
    assert_eq!(config.migrations.revision_style, RevisionStyle::Hash);
}
