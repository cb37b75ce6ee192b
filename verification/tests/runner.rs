//! The migration runner's plans over a chain of parsed SQL files.

use tork_orm::cli::{down_preview, DownTarget};
use tork_orm::error::ErrorKind;
use tork_orm::migration::files::{build_chain, parse, MigrationFile};
use tork_orm::migration::runner::{AppliedRecord, FileMigrator, OnMismatch, Step};

fn file(revision: &str, down: Option<&str>, up: &str, down_sql: &str) -> MigrationFile {
    let content = format!(
        "-- revision: {revision}\n-- down_revision: {}\n-- migrate:up\n{up}\n-- migrate:down\n{down_sql}\n",
        down.unwrap_or("")
    );
    parse(&content, &format!("{revision}_step")).unwrap()
}

fn chain() -> Vec<MigrationFile> {
    build_chain(vec![
        file("bbbb", Some("aaaa"), "CREATE TABLE posts (id INTEGER);", "DROP TABLE posts;"),
        file("aaaa", None, "CREATE TABLE users (id INTEGER);", "DROP TABLE users;"),
        file("cccc", Some("bbbb"), "CREATE TABLE tags (id INTEGER);", ""),
    ])
    .unwrap()
}

fn record(f: &MigrationFile) -> AppliedRecord {
    AppliedRecord { revision: f.revision.clone(), down_revision: f.down_revision.clone(), checksum: f.checksum.clone() }
}

fn runs(steps: &[Step]) -> Vec<usize> {
    steps
        .iter()
        .map(|s| match s {
            Step::Run(i) => *i,
            other => panic!("unexpected step {other:?}"),
        })
        .collect()
}

#[test]
fn chain_is_ordered_by_down_revision() {
    let c = chain();
    let order: Vec<&str> = c.iter().map(|f| f.revision.as_str()).collect();
    assert_eq!(order, vec!["aaaa", "bbbb", "cccc"]);
    assert_eq!(c[0].name, "step");
    assert!(c[2].down_sql.is_none());
}

#[test]
fn up_applies_pending_in_order_and_again_applies_nothing() {
    let c = chain();
    let migrator = FileMigrator::new("migrations");
    let first = migrator.plan_up(&c, &vec![], None).unwrap();
    assert_eq!(runs(&first), vec![0, 1, 2]);
    let after: Vec<AppliedRecord> = c.iter().map(record).collect();
    let second = migrator.plan_up(&c, &after, None).unwrap();
    assert!(second.is_empty());
}

#[test]
fn up_to_a_prefix_stops_there() {
    let c = chain();
    let migrator = FileMigrator::new("migrations");
    assert_eq!(runs(&migrator.plan_up(&c, &vec![], Some("bb")).unwrap()), vec![0, 1]);
    let err = migrator.plan_up(&c, &vec![], Some("zz")).unwrap_err();
    assert_eq!(err.kind(), ErrorKind::Configuration);
}

#[test]
fn a_changed_checksum_fails_or_warns_per_policy() {
    let c = chain();
    let mut stale = record(&c[0]);
    stale.checksum = "0000000000000000".into();
    let records = vec![stale];
    let strict = FileMigrator::new("m").plan_up(&c, &records, None).unwrap();
    assert!(matches!(&strict[..], [Step::Fail(e)] if e.message().contains("checksum mismatch")));
    let lenient = FileMigrator::new("m")
        .on_checksum_mismatch(OnMismatch::Warn)
        .plan_up(&c, &records, None)
        .unwrap();
    assert!(matches!(&lenient[0], Step::Warn(_)));
    assert!(matches!(&lenient[1..], [Step::Run(1), Step::Run(2)]));
}

#[test]
fn destructive_migrations_need_permission() {
    let c = build_chain(vec![file("dddd", None, "DROP TABLE users;", "")]).unwrap();
    let steps = FileMigrator::new("m").plan_up(&c, &vec![], None).unwrap();
    assert!(matches!(&steps[..], [Step::Fail(e)] if e.message().contains("--allow-destructive")));
    let allowed = FileMigrator::new("m").allow_destructive(true).plan_up(&c, &vec![], None).unwrap();
    assert_eq!(runs(&allowed), vec![0]);
}

#[test]
fn down_reverts_latest_first_and_stops_without_a_down_section() {
    let c = chain();
    let records: Vec<AppliedRecord> = c.iter().map(record).collect();
    let migrator = FileMigrator::new("m");
    let steps = migrator.plan_down(&c, &records, 1);
    assert!(matches!(&steps[..], [Step::Fail(e)] if e.message().contains("no `-- migrate:down`")));
    let two: Vec<AppliedRecord> = c[..2].iter().map(record).collect();
    assert_eq!(runs(&migrator.plan_down(&c, &two, 5)), vec![1, 0]);
    assert_eq!(migrator.down_to_count(&c, &two, "aa").unwrap(), 1);
}

#[test]
fn status_and_down_preview_follow_the_records() {
    let c = chain();
    let two: Vec<AppliedRecord> = c[..2].iter().map(record).collect();
    let statuses = FileMigrator::new("m").status(&c, &two);
    assert!(statuses[0].applied && statuses[1].applied && !statuses[2].applied);
    assert_eq!(statuses[0].checksum_matches, Some(true));
    assert_eq!(statuses[2].checksum_matches, None);
    let names = |t: DownTarget| -> Vec<String> {
        down_preview(&statuses, &t).into_iter().map(|(r, _)| r).collect()
    };
    assert_eq!(names(DownTarget::Steps(1)), vec!["bbbb"]);
    assert_eq!(names(DownTarget::Steps(9)), vec!["bbbb", "aaaa"]);
    assert_eq!(names(DownTarget::Base), vec!["bbbb", "aaaa"]);
    assert_eq!(names(DownTarget::To("aa".into())), vec!["bbbb"]);
    assert!(names(DownTarget::To("zz".into())).is_empty());
}

#[test]
fn down_after_a_fresh_up_meets_its_migrations_in_reverse() {
    let c = chain();
    let migrator = FileMigrator::new("m");
    let up = migrator.plan_up(&c, &vec![], Some("bbbb")).unwrap();
    assert_eq!(runs(&up), vec![0, 1]);
    let after: Vec<AppliedRecord> = runs(&up).iter().map(|i| record(&c[*i])).collect();
    assert_eq!(runs(&migrator.plan_down(&c, &after, usize::MAX)), vec![1, 0]);
}

#[test]
fn down_counts_follow_the_target() {
    let c = chain();
    let two: Vec<AppliedRecord> = c[..2].iter().map(record).collect();
    let migrator = FileMigrator::new("m");
    assert_eq!(tork_orm::cli::down_count(&migrator, &c, &two, &DownTarget::Steps(2)).unwrap(), 2);
    assert_eq!(tork_orm::cli::down_count(&migrator, &c, &two, &DownTarget::Base).unwrap(), usize::MAX);
    assert_eq!(tork_orm::cli::down_count(&migrator, &c, &two, &DownTarget::To("aaaa".into())).unwrap(), 1);
    assert!(tork_orm::cli::down_count(&migrator, &c, &two, &DownTarget::To("x".into())).is_err());
}
