//! The text the commands print.

use tork_orm::cli::output::{
    confirm_prompt, created, directory_ready, info, is_yes, migrations_done, redo_done, revert_preview,
    status, Action,
};
use tork_orm::cli::style::Style;
use tork_orm::migration::runner::FileStatus;

#[test]
fn plain_output_lines() {
    let plain = Style::with_color(false);
    assert_eq!(created(&plain, "m/1_x.sql"), "\n  ✔ Created  m/1_x.sql\n\n");
    assert_eq!(directory_ready(&plain, "m"), "\n  ✔ Migrations directory  m\n\n");
    assert_eq!(redo_done(&plain, 1, 1), "\n  ✔ Reverted 1 and applied 1 migration\n\n");
    assert_eq!(redo_done(&plain, 1, 3), "\n  ✔ Reverted 1 and applied 3 migrations\n\n");
    assert_eq!(confirm_prompt("Proceed?"), "  Proceed? [y/N] ");
    assert_eq!(info(&plain, "Cancelled"), "\n  Cancelled\n\n");
    assert!(is_yes(" YES\n"));
    assert!(!is_yes("no"));
}

#[test]
fn colored_output_wraps_in_ansi_codes() {
    let color = Style::with_color(true);
    assert_eq!(color.green("ok"), "\u{1b}[32mok\u{1b}[0m");
    assert!(!Style::detect(true, false, true).green("x").contains('\u{1b}'));
    assert!(!Style::detect(false, true, true).green("x").contains('\u{1b}'));
}

#[test]
fn migration_summaries() {
    let plain = Style::with_color(false);
    assert_eq!(migrations_done(&plain, Action::Up, &vec![]), "\n  Already up to date\n\n");
    assert_eq!(migrations_done(&plain, Action::Down, &vec![]), "\n  Nothing to revert\n\n");
    let done = migrations_done(
        &plain,
        Action::Up,
        &vec![("aaaa".into(), "users".into(), 3), ("bbbb".into(), "posts".into(), 4)],
    );
    assert_eq!(
        done,
        "\n  Applying migrations\n  ✔ aaaa  users                 3ms\n  ✔ bbbb  posts                 4ms\n\n  Applied 2 migrations in 7ms\n\n"
    );
    let preview = revert_preview(&plain, &vec![("bbbb".into(), "posts".into()), ("aaaa".into(), "users".into())]);
    assert!(preview.contains("This will revert 2 migrations:"));
    let statuses = vec![
        FileStatus { revision: "aaaa".into(), name: "users".into(), applied: true, checksum_matches: Some(true) },
        FileStatus { revision: "bbbb".into(), name: "posts".into(), applied: false, checksum_matches: None },
    ];
    let text = status(&plain, "migrations", &statuses);
    assert_eq!(
        text,
        "\n  Migrations  ·  migrations\n\n  ●  aaaa  users               \n  ○  bbbb  posts               \n\n  1 applied · 1 pending\n\n"
    );
}
