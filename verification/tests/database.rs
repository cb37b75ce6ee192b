//! Choosing a backend from a database URL, and resolving the configuration.

use tork_orm::cli::settings::Config;
use tork_orm::cli::Cli;
use tork_orm::config::TorkConfig;
use tork_orm::database::{backend_for_url, sqlite_source, ExecuteResult, SqliteSource};
use tork_orm::dialect::DialectKind;
use tork_orm::error::ErrorKind;

#[test]
fn url_schemes_select_backends() {
    assert_eq!(backend_for_url("sqlite://app.db").unwrap(), DialectKind::Sqlite);
    assert_eq!(backend_for_url("app.db").unwrap(), DialectKind::Sqlite);
    assert_eq!(backend_for_url("postgresql://localhost/x").unwrap(), DialectKind::Postgres);
    assert_eq!(backend_for_url("mariadb://localhost/x").unwrap(), DialectKind::Mysql);
    let err = backend_for_url("oracle://x").unwrap_err();
    assert_eq!(err.kind(), ErrorKind::Configuration);
    assert_eq!(err.message(), "no compiled-in backend for url scheme `oracle`");
}

#[test]
fn sqlite_urls_name_a_file_or_memory() {
    assert!(matches!(sqlite_source("sqlite://data/app.db").unwrap(), SqliteSource::File(p) if p == "data/app.db"));
    assert!(matches!(sqlite_source(" sqlite:x.db ").unwrap(), SqliteSource::File(p) if p == "x.db"));
    assert!(matches!(sqlite_source("sqlite::memory:").unwrap(), SqliteSource::Memory));
    assert!(matches!(sqlite_source("sqlite://").unwrap(), SqliteSource::Memory));
    assert_eq!(sqlite_source("   ").unwrap_err().message(), "database url is empty");
    let none = ExecuteResult::default();
    assert_eq!((none.rows_affected, none.last_insert_rowid), (0, 0));
}

#[test]
fn configuration_prefers_flags_then_environment_then_project() {
    let cli = Cli::try_parse_from(&["tork-orm", "migrate", "status"]).unwrap();
    let config = Config::resolve(&cli.global, None, Some("sqlite://b.db".into()), TorkConfig::default());
    assert_eq!(config.database_url.as_deref(), Some("sqlite://b.db"));
    assert_eq!(config.dir, "migrations");
    assert_eq!(config.table, "_tork_migrations");
    assert_eq!(config.require_database_url().unwrap(), "sqlite://b.db");

    let cli = Cli::try_parse_from(&["tork-orm", "-d", "sqlite://a.db", "--dir", "db", "--table", "t", "migrate", "up"])
        .unwrap();
    let config = Config::resolve(
        &cli.global,
        Some("sqlite://env.db".into()),
        Some("sqlite://b.db".into()),
        TorkConfig::default(),
    );
    assert_eq!(config.database_url.as_deref(), Some("sqlite://a.db"));
    assert_eq!((config.dir.as_str(), config.table.as_str()), ("db", "t"));

    let cli = Cli::try_parse_from(&["tork-orm", "migrate", "up"]).unwrap();
    let config = Config::resolve(&cli.global, None, None, TorkConfig::default());
    let err = config.require_database_url().unwrap_err();
    assert_eq!(err.message(), "no database URL; pass --database-url or set DATABASE_URL");
}

#[test]
fn missing_database_url_fails_cleanly() {
    let cli = Cli::try_parse_from(&["tork-orm", "migrate", "--dir", "some/dir", "up"]).unwrap();
    let config = Config::resolve(&cli.global, None, None, TorkConfig::default());
    let err = config.require_database_url().unwrap_err();
    let style = tork_orm::cli::style::Style::with_color(false);
    let printed = tork_orm::cli::output::error(&style, &err);
    assert!(printed.contains("database URL"));
    assert_eq!(printed, "\n  ✖ Error  no database URL; pass --database-url or set DATABASE_URL\n\n");
}
