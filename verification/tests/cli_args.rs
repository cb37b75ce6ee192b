//! Argument parsing and target resolution.

use tork_orm::cli::{
    parse_down_target, parse_up_target, ArgErrorKind, Cli, DownTarget, MigrateCommand, TopCommand,
    UpTarget,
};

#[test]
fn up_targets_parse() {
    assert_eq!(parse_up_target(None), UpTarget::Head);
    assert_eq!(parse_up_target(Some("head")), UpTarget::Head);
    assert_eq!(parse_up_target(Some("abc123")), UpTarget::To("abc123".into()));
}

#[test]
fn down_targets_parse() {
    assert_eq!(parse_down_target(None), DownTarget::Steps(1));
    assert_eq!(parse_down_target(Some("3")), DownTarget::Steps(3));
    assert_eq!(parse_down_target(Some("base")), DownTarget::Base);
    assert_eq!(
        parse_down_target(Some("abc123")),
        DownTarget::To("abc123".into())
    );
}

#[test]
fn parses_migrate_up_with_global_flags() {
    let cli = Cli::try_parse_from(&[
        "tork-orm",
        "migrate",
        "--dir",
        "db/migrations",
        "--table",
        "_schema",
        "up",
        "head",
    ])
    .unwrap();

    assert_eq!(cli.global.dir.as_deref(), Some("db/migrations"));
    assert_eq!(cli.global.table.as_deref(), Some("_schema"));
    match cli.command {
        TopCommand::Migrate(MigrateCommand::Up { target }) => {
            assert_eq!(target.as_deref(), Some("head"));
        }
        _ => panic!("expected migrate up"),
    }
}

#[test]
fn parses_migrate_down_with_steps() {
    let cli = Cli::try_parse_from(&["tork-orm", "migrate", "down", "2"]).unwrap();
    match cli.command {
        TopCommand::Migrate(MigrateCommand::Down { target }) => {
            assert_eq!(parse_down_target(target.as_deref()), DownTarget::Steps(2));
        }
        _ => panic!("expected migrate down"),
    }
}

#[test]
fn status_needs_no_target() {
    let cli = Cli::try_parse_from(&["tork-orm", "migrate", "status"]).unwrap();
    assert!(matches!(
        cli.command,
        TopCommand::Migrate(MigrateCommand::Status)
    ));
}

#[test]
fn an_unknown_subcommand_is_an_error() {
    assert!(Cli::try_parse_from(&["tork-orm", "migrate", "frobnicate"]).is_err());
}

#[test]
fn global_options_may_follow_the_subcommand() {
    let cli = Cli::try_parse_from(&[
        "tork-orm",
        "migrate",
        "status",
        "-d",
        "sqlite://app.db",
        "--no-color",
        "-y",
        "--allow-destructive",
    ])
    .unwrap();
    assert_eq!(cli.global.database_url.as_deref(), Some("sqlite://app.db"));
    assert!(cli.global.no_color);
    assert!(cli.global.yes);
    assert!(cli.global.allow_destructive);
    assert!(!cli.global.allow_checksum_mismatch);
    assert_eq!(cli.global.dir, None);
}

#[test]
fn attached_and_bundled_option_values() {
    let cli = Cli::try_parse_from(&[
        "tork-orm",
        "--dir=db",
        "migrate",
        "-ydsqlite://x.db",
        "create",
        "add_orders",
    ])
    .unwrap();
    assert_eq!(cli.global.dir.as_deref(), Some("db"));
    assert_eq!(cli.global.database_url.as_deref(), Some("sqlite://x.db"));
    assert!(cli.global.yes);
    match cli.command {
        TopCommand::Migrate(MigrateCommand::Create { name }) => assert_eq!(name, "add_orders"),
        _ => panic!("expected migrate create"),
    }
}

#[test]
fn a_later_level_replaces_an_earlier_option() {
    let cli = Cli::try_parse_from(&["tork-orm", "--dir", "a", "migrate", "--dir", "b", "init"])
        .unwrap();
    assert_eq!(cli.global.dir.as_deref(), Some("b"));
    assert!(matches!(cli.command, TopCommand::Migrate(MigrateCommand::Init)));
}

#[test]
fn parse_errors_name_their_reason() {
    let kind = |args: &[&str]| Cli::try_parse_from(args).unwrap_err().kind;
    assert_eq!(kind(&["tork-orm"]), ArgErrorKind::MissingSubcommand);
    assert_eq!(kind(&["tork-orm", "migrate"]), ArgErrorKind::MissingSubcommand);
    assert_eq!(kind(&["tork-orm", "migrate", "create"]), ArgErrorKind::MissingName);
    assert_eq!(kind(&["tork-orm", "migrate", "status", "x"]), ArgErrorKind::UnexpectedArgument);
    assert_eq!(kind(&["tork-orm", "migrate", "up", "a", "b"]), ArgErrorKind::UnexpectedArgument);
    assert_eq!(kind(&["tork-orm", "migrate", "--dir"]), ArgErrorKind::MissingValue);
    assert_eq!(kind(&["tork-orm", "migrate", "--dir", "--yes"]), ArgErrorKind::MissingValue);
    assert_eq!(kind(&["tork-orm", "-y", "-y", "migrate", "init"]), ArgErrorKind::Repeated);
    assert_eq!(kind(&["tork-orm", "--bogus", "migrate", "init"]), ArgErrorKind::UnknownArgument);
    assert_eq!(kind(&["tork-orm", "--yes=1", "migrate", "init"]), ArgErrorKind::UnexpectedValue);
    assert_eq!(kind(&["tork-orm", "seed"]), ArgErrorKind::InvalidSubcommand);
    assert_eq!(kind(&["tork-orm", "migrate", "--help"]), ArgErrorKind::DisplayHelp);
    assert_eq!(kind(&["tork-orm", "help"]), ArgErrorKind::DisplayHelp);
    assert_eq!(kind(&["tork-orm", "-V"]), ArgErrorKind::DisplayVersion);
    assert_eq!(kind(&["tork-orm", "migrate", "-V"]), ArgErrorKind::UnknownArgument);
    let err = Cli::try_parse_from(&["tork-orm", "migrate", "--table", "t", "--table", "u", "init"])
        .unwrap_err();
    assert_eq!(err.arg, "--table");
}

#[test]
fn double_dash_ends_option_parsing() {
    let cli = Cli::try_parse_from(&["tork-orm", "migrate", "down", "--", "-x"]).unwrap();
    match cli.command {
        TopCommand::Migrate(MigrateCommand::Down { target }) => {
            assert_eq!(target.as_deref(), Some("-x"));
        }
        _ => panic!("expected migrate down"),
    }
}
