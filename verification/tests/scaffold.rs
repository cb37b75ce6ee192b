//! Migration scaffolding helpers (pure, no filesystem).

use tork_orm::cli::scaffold::{
    new_revision, render_file_name, revision_id, simple_uuid_text, snake_case, template, truncate_slug,
    DateParts,
};
use tork_orm::config::RevisionStyle;
use tork_orm::migration::files::{head_revision, parse};

fn sample_date() -> DateParts {
    DateParts {
        year: "2026".into(),
        month: "06".into(),
        day: "12".into(),
        hour: "14".into(),
        minute: "30".into(),
        second: "05".into(),
    }
}

#[test]
fn default_template_reproduces_current_names() {
    let name = render_file_name("{rev}_{slug}", "a1b2c3d4e5f6", "add_users", &sample_date());
    assert_eq!(name, "a1b2c3d4e5f6_add_users.sql");
}

#[test]
fn date_tokens_are_interpolated() {
    let name = render_file_name(
        "{year}{month}{day}_{hour}{minute}_{rev}_{slug}",
        "abcdef",
        "add_orders",
        &sample_date(),
    );
    assert_eq!(name, "20260612_1430_abcdef_add_orders.sql");
}

#[test]
fn sequence_revision_is_zero_padded_next_number() {
    assert_eq!(revision_id(RevisionStyle::Sequence, 0), "0001");
    assert_eq!(revision_id(RevisionStyle::Sequence, 41), "0042");
}

#[test]
fn hash_revision_is_twelve_hex_chars() {
    let rev = revision_id(RevisionStyle::Hash, 0);
    assert_eq!(rev.len(), 12);
    assert!(rev.chars().all(|c| c.is_ascii_hexdigit()));
}

#[test]
fn slug_is_truncated_without_trailing_underscore() {
    assert_eq!(truncate_slug("add_users", 40), "add_users");
    // Cutting "add_a_table" at 5 would yield "add_a"; cutting at 4 yields "add"
    // after trimming the trailing underscore.
    assert_eq!(truncate_slug("add_a_table", 4), "add");
    assert_eq!(truncate_slug("add_a_table", 5), "add_a");
}

#[test]
fn snake_case_normalizes_names() {
    assert_eq!(snake_case("Add Orders!"), "add_orders");
    assert_eq!(snake_case("create-users"), "create_users");
    assert_eq!(snake_case("  spaced  out  "), "spaced_out");
}

#[test]
fn revisions_are_unique_12_char_hex() {
    let revision = new_revision();
    assert_eq!(revision.len(), 12);
    assert!(revision.chars().all(|c| c.is_ascii_hexdigit()));
    assert_ne!(new_revision(), new_revision());
}

#[test]
fn default_template_combines_revision_and_name() {
    let date = DateParts {
        year: "2026".into(),
        month: "06".into(),
        day: "12".into(),
        hour: "00".into(),
        minute: "00".into(),
        second: "00".into(),
    };
    assert_eq!(
        render_file_name("{rev}_{slug}", "abc123def456", "add_orders", &date),
        "abc123def456_add_orders.sql"
    );
}

#[test]
fn template_has_headers_and_markers() {
    let content = template("abc123", Some("parent99"), "create_users");
    assert!(content.contains("-- revision: abc123"));
    assert!(content
        .lines()
        .any(|line| line.trim() == "-- down_revision: parent99"));
    assert!(content.contains("-- migrate:up"));
    assert!(content.contains("-- migrate:down"));
}

#[test]
fn base_migration_has_an_empty_down_revision() {
    let content = template("abc123", None, "create_users");
    assert!(content
        .lines()
        .any(|line| line.trim() == "-- down_revision:"));
}

#[test]
fn slug_longer_sequence_numbers_keep_growing() {
    assert_eq!(revision_id(RevisionStyle::Sequence, 9999), "10000");
    assert_eq!(snake_case("__Already__Snake__"), "already_snake");
    assert_eq!(truncate_slug("abc", 0), "");
}

#[test]
fn create_scaffolds_a_chained_migration() {
    let date = sample_date();
    // The first migration: a fresh revision and no parent.
    let first_revision = revision_id(RevisionStyle::Hash, 0);
    let first_name = render_file_name("{rev}_{slug}", &first_revision, "create_users", &date);
    let first = template(&first_revision, None, "create_users");
    let stem = first_name.trim_end_matches(".sql");
    let parsed = parse(&first, stem).unwrap();
    // The second migration follows the head of the chain.
    let head = head_revision(vec![parsed]).unwrap();
    assert_eq!(head.as_deref(), Some(first_revision.as_str()));
    let second_revision = revision_id(RevisionStyle::Hash, 1);
    let second = template(&second_revision, head.as_deref(), "add_posts");
    assert!(second.contains(&format!("-- down_revision: {first_revision}")));
    assert_eq!(first_name.split('_').next(), Some(first_revision.as_str()));
}

#[test]
fn simple_uuid_text_is_lower_hex_per_byte() {
    let bytes: [u8; 16] = [
        0x67, 0xe5, 0x50, 0x44, 0x10, 0xb1, 0x42, 0x6f, 0x92, 0x47, 0xbb, 0x68, 0x0e, 0x5f, 0xe0,
        0xc8,
    ];
    assert_eq!(simple_uuid_text(&bytes), "67e5504410b1426f9247bb680e5fe0c8");
    assert_eq!(simple_uuid_text(&[0u8; 16]), "00000000000000000000000000000000");
}
