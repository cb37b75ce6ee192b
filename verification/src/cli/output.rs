//! The text each command prints: one line per migration, then one summary
//! line. Printing it is the caller's part.

use vstd::prelude::*;

use crate::error::OrmError;
use crate::migration::runner::FileStatus;
use crate::text::{decimal, owned, push_decimal, push_decimal_wide, push_str, trim, trimmed};

use super::style::{painted, Style};
use super::sym;

verus! {

/// The direction an action ran, for headers and summaries.
#[derive(Debug, Clone, Copy, PartialEq, Eq, Structural)]
pub enum Action {
    /// Applying migrations.
    Up,
    /// Reverting migrations.
    Down,
}

impl Action {
    /// The heading printed above the migrations an action ran.
    pub fn header(self) -> (s: &'static str)
        ensures
            s@ == if self == Action::Up {
                "Applying migrations"@
            } else {
                "Reverting migrations"@
            },
    {
        match self {
            Action::Up => "Applying migrations",
            Action::Down => "Reverting migrations",
        }
    }

    /// The verb of the summary line.
    pub fn summary(self) -> (s: &'static str)
        ensures
            s@ == if self == Action::Up {
                "Applied"@
            } else {
                "Reverted"@
            },
    {
        match self {
            Action::Up => "Applied",
            Action::Down => "Reverted",
        }
    }

    /// The line printed when the action had nothing to do.
    pub fn idle(self) -> (s: &'static str)
        ensures
            s@ == if self == Action::Up {
                "Already up to date"@
            } else {
                "Nothing to revert"@
            },
    {
        match self {
            Action::Up => "Already up to date",
            Action::Down => "Nothing to revert",
        }
    }
}

/// The plural suffix for a count.
pub open spec fn plural_text(count: nat) -> Seq<char> {
    if count == 1 {
        seq![]
    } else {
        "s"@
    }
}

/// Returns the plural suffix for a count.
pub fn plural(count: usize) -> (s: &'static str)
    ensures
        s@ == plural_text(count as nat),
{
    proof {
        reveal_strlit("");
    }
    if count == 1 {
        ""
    } else {
        "s"
    }
}

/// The width of `text` in UTF-8 bytes (names are ASCII, where this is the
/// number of characters).
pub open spec fn byte_width(text: Seq<char>) -> nat {
    vstd::utf8::encode_utf8(text).len()
}

/// `text` padded on the right with spaces to `width` bytes.
pub open spec fn padded(text: Seq<char>, width: nat) -> Seq<char> {
    if byte_width(text) >= width {
        text
    } else {
        text + Seq::new((width - byte_width(text)) as nat, |i: int| ' ')
    }
}

/// Pads `text` on the right with spaces to `width` bytes.
pub fn pad(text: &str, width: usize) -> (s: String)
    ensures
        s@ == padded(text@, width as nat),
{
    let len = text.as_bytes().len();
    let mut s = owned(text);
    if len < width {
        let mut i: usize = len;
        let ghost start = s@;
        while i < width
            invariant
                len <= i <= width,
                len == byte_width(text@),
                s@ == start + Seq::new((i - len) as nat, |j: int| ' '),
            decreases width - i,
        {
            push_str(&mut s, " ");
            proof {
                reveal_strlit(" ");
            }
            assert(s@ =~= start + Seq::new((i + 1 - len) as nat, |j: int| ' '));
            i = i + 1;
        }
    }
    s
}

/// One applied or reverted migration as it is printed: revision, name and
/// elapsed milliseconds.
pub open spec fn done_line(color: bool, revision: Seq<char>, name: Seq<char>, millis: nat) -> Seq<char> {
    "  "@ + painted(color, "32"@, sym::CHECK@) + " "@ + painted(color, "36"@, revision) + "  "@
        + padded(name, 20) + "  "@ + painted(color, "2"@, decimal(millis) + "ms"@) + "\n"@
}

/// The lines of the migrations, in order.
pub open spec fn done_lines(color: bool, results: Seq<(String, String, u128)>) -> Seq<char>
    decreases results.len(),
{
    if results.len() == 0 {
        seq![]
    } else {
        done_lines(color, results.drop_last()) + done_line(
            color,
            results.last().0@,
            results.last().1@,
            results.last().2 as nat,
        )
    }
}

/// The total of the elapsed milliseconds.
pub open spec fn total_millis(results: Seq<(String, String, u128)>) -> nat
    decreases results.len(),
{
    if results.len() == 0 {
        0
    } else {
        total_millis(results.drop_last()) + results.last().2 as nat
    }
}

/// The text printed after an `up` or `down`.
pub open spec fn migrations_done_text(color: bool, action: Action, results: Seq<(String, String, u128)>) -> Seq<char> {
    if results.len() == 0 {
        "\n  "@ + painted(color, "2"@, if action == Action::Up {
            "Already up to date"@
        } else {
            "Nothing to revert"@
        }) + "\n\n"@
    } else {
        "\n  "@ + painted(color, "1"@, if action == Action::Up {
            "Applying migrations"@
        } else {
            "Reverting migrations"@
        }) + "\n"@ + done_lines(color, results) + "\n  "@ + (if action == Action::Up {
            "Applied"@
        } else {
            "Reverted"@
        }) + " "@ + decimal(results.len()) + " migration"@ + plural_text(results.len()) + " in "@
            + decimal(total_millis(results)) + "ms\n\n"@
    }
}

/// One migration's line.
fn done_line_of(style: &Style, revision: &str, name: &str, millis: u128) -> (s: String)
    ensures
        s@ == done_line(style.spec_color(), revision@, name@, millis as nat),
{
    let mut s = owned("  ");
    let check = style.green(sym::CHECK);
    push_str(&mut s, check.as_str());
    push_str(&mut s, " ");
    let rev = style.cyan(revision);
    push_str(&mut s, rev.as_str());
    push_str(&mut s, "  ");
    let padded_name = pad(name, 20);
    push_str(&mut s, padded_name.as_str());
    push_str(&mut s, "  ");
    let mut ms = String::new();
    push_decimal_wide(&mut ms, millis);
    push_str(&mut ms, "ms");
    let dimmed = style.dim(ms.as_str());
    push_str(&mut s, dimmed.as_str());
    push_str(&mut s, "\n");
    s
}

/// The text printed after an `up` or `down`: one line per migration (its
/// revision, name and elapsed milliseconds), then a summary with the total.
pub fn migrations_done(style: &Style, action: Action, results: &Vec<(String, String, u128)>) -> (s: String)
    requires
        total_millis(results@) <= u128::MAX,
    ensures
        s@ == migrations_done_text(style.spec_color(), action, results@),
{
    if results.len() == 0 {
        let mut s = owned("\n  ");
        let idle = style.dim(action.idle());
        push_str(&mut s, idle.as_str());
        push_str(&mut s, "\n\n");
        return s;
    }
    let mut s = owned("\n  ");
    let header = style.bold(action.header());
    push_str(&mut s, header.as_str());
    push_str(&mut s, "\n");
    let ghost head = s@;
    let mut total: u128 = 0;
    let mut i: usize = 0;
    while i < results.len()
        invariant
            i <= results@.len(),
            total == total_millis(results@.take(i as int)),
            total_millis(results@) <= u128::MAX,
            s@ == head + done_lines(style.spec_color(), results@.take(i as int)),
        decreases results@.len() - i,
    {
        assert(results@.take(i + 1).drop_last() == results@.take(i as int));
        proof {
            lemma_total_prefix(results@, i + 1);
        }
        let (revision, name, millis) = &results[i];
        let line = done_line_of(style, revision.as_str(), name.as_str(), *millis);
        push_str(&mut s, line.as_str());
        total = total + *millis;
        i = i + 1;
    }
    assert(results@.take(i as int) == results@);
    push_str(&mut s, "\n  ");
    push_str(&mut s, action.summary());
    push_str(&mut s, " ");
    push_decimal_wide(&mut s, results.len() as u128);
    push_str(&mut s, " migration");
    push_str(&mut s, plural(results.len()));
    push_str(&mut s, " in ");
    push_decimal_wide(&mut s, total);
    push_str(&mut s, "ms\n\n");
    s
}

proof fn lemma_total_prefix(results: Seq<(String, String, u128)>, i: int)
    requires
        0 <= i <= results.len(),
    ensures
        total_millis(results.take(i)) <= total_millis(results),
    decreases results.len() - i,
{
    if i < results.len() {
        lemma_total_prefix(results, i + 1);
        assert(results.take(i + 1).drop_last() == results.take(i));
    } else {
        assert(results.take(i) == results);
    }
}

/// The counts of applied, changed-since-applied and pending migrations.
pub open spec fn status_counts(statuses: Seq<FileStatus>) -> (nat, nat, nat)
    decreases statuses.len(),
{
    if statuses.len() == 0 {
        (0, 0, 0)
    } else {
        let c = status_counts(statuses.drop_last());
        match statuses.last().checksum_matches {
            Some(true) => (c.0 + 1, c.1, c.2),
            Some(false) => (c.0, c.1 + 1, c.2),
            None => (c.0, c.1, c.2 + 1),
        }
    }
}

/// One migration's status line.
pub open spec fn status_line(color: bool, s: FileStatus) -> Seq<char> {
    let symbol = match s.checksum_matches {
        Some(true) => painted(color, "32"@, sym::APPLIED@),
        Some(false) => painted(color, "33"@, sym::WARN@),
        None => painted(color, "2"@, sym::PENDING@),
    };
    let suffix = match s.checksum_matches {
        Some(false) => "  "@ + painted(color, "33"@, "changed since applied"@),
        _ => seq![],
    };
    "  "@ + symbol + "  "@ + painted(color, "36"@, s.revision@) + "  "@ + padded(s.name@, 20) + suffix
        + "\n"@
}

/// The status lines, in order.
pub open spec fn status_lines(color: bool, statuses: Seq<FileStatus>) -> Seq<char>
    decreases statuses.len(),
{
    if statuses.len() == 0 {
        seq![]
    } else {
        status_lines(color, statuses.drop_last()) + status_line(color, statuses.last())
    }
}

/// The summary of a status table: `N applied`, `N changed` when any, and
/// `N pending`, joined by ` · `.
pub open spec fn status_summary(counts: (nat, nat, nat)) -> Seq<char> {
    decimal(counts.0) + " applied"@ + (if counts.1 > 0 {
        " · "@ + decimal(counts.1) + " changed"@
    } else {
        seq![]
    }) + " · "@ + decimal(counts.2) + " pending"@
}

/// The text of the migration status table.
pub open spec fn status_text(color: bool, dir: Seq<char>, statuses: Seq<FileStatus>) -> Seq<char> {
    "\n  "@ + painted(color, "1"@, "Migrations"@) + "  "@ + painted(color, "2"@, "·"@) + "  "@
        + painted(color, "2"@, dir) + "\n\n"@ + status_lines(color, statuses) + "\n  "@ + painted(
        color,
        "2"@,
        status_summary(status_counts(statuses)),
    ) + "\n\n"@
}

/// One migration's status line.
fn status_line_of(style: &Style, entry: &FileStatus) -> (s: String)
    ensures
        s@ == status_line(style.spec_color(), *entry),
{
    let symbol = match entry.checksum_matches {
        Some(true) => style.green(sym::APPLIED),
        Some(false) => style.yellow(sym::WARN),
        None => style.dim(sym::PENDING),
    };
    let mut s = owned("  ");
    push_str(&mut s, symbol.as_str());
    push_str(&mut s, "  ");
    let rev = style.cyan(entry.revision.as_str());
    push_str(&mut s, rev.as_str());
    push_str(&mut s, "  ");
    let name = pad(entry.name.as_str(), 20);
    push_str(&mut s, name.as_str());
    let ghost mid = s@;
    match entry.checksum_matches {
        Some(false) => {
            push_str(&mut s, "  ");
            let note = style.yellow("changed since applied");
            push_str(&mut s, note.as_str());
        },
        _ => {},
    }
    push_str(&mut s, "\n");
    s
}

/// The migration status table with a one-line summary.
pub fn status(style: &Style, dir: &str, statuses: &Vec<FileStatus>) -> (s: String)
    ensures
        s@ == status_text(style.spec_color(), dir@, statuses@),
{
    let mut s = owned("\n  ");
    let title = style.bold("Migrations");
    push_str(&mut s, title.as_str());
    push_str(&mut s, "  ");
    let dot = style.dim("·");
    push_str(&mut s, dot.as_str());
    push_str(&mut s, "  ");
    let d = style.dim(dir);
    push_str(&mut s, d.as_str());
    push_str(&mut s, "\n\n");
    let ghost head = s@;
    let mut applied: usize = 0;
    let mut changed: usize = 0;
    let mut pending: usize = 0;
    let mut i: usize = 0;
    while i < statuses.len()
        invariant
            i <= statuses@.len(),
            s@ == head + status_lines(style.spec_color(), statuses@.take(i as int)),
            status_counts(statuses@.take(i as int)) == (applied as nat, changed as nat, pending as nat),
            applied + changed + pending == i,
        decreases statuses@.len() - i,
    {
        assert(statuses@.take(i + 1).drop_last() == statuses@.take(i as int));
        let entry = &statuses[i];
        match entry.checksum_matches {
            Some(true) => applied = applied + 1,
            Some(false) => changed = changed + 1,
            None => pending = pending + 1,
        }
        let line = status_line_of(style, entry);
        push_str(&mut s, line.as_str());
        i = i + 1;
    }
    assert(statuses@.take(i as int) == statuses@);
    let mut summary = String::new();
    push_decimal_wide(&mut summary, applied as u128);
    push_str(&mut summary, " applied");
    if changed > 0 {
        push_str(&mut summary, " · ");
        push_decimal_wide(&mut summary, changed as u128);
        push_str(&mut summary, " changed");
    }
    push_str(&mut summary, " · ");
    push_decimal_wide(&mut summary, pending as u128);
    push_str(&mut summary, " pending");
    push_str(&mut s, "\n  ");
    let dimmed = style.dim(summary.as_str());
    push_str(&mut s, dimmed.as_str());
    push_str(&mut s, "\n\n");
    s
}

/// The lines of a revert preview.
pub open spec fn preview_lines(color: bool, items: Seq<(String, String)>) -> Seq<char>
    decreases items.len(),
{
    if items.len() == 0 {
        seq![]
    } else {
        preview_lines(color, items.drop_last()) + "    "@ + painted(color, "2"@, sym::ARROW@) + " "@
            + painted(color, "36"@, items.last().0@) + "  "@ + painted(color, "2"@, items.last().1@)
            + "\n"@
    }
}

/// The list a destructive `down` would revert, for confirmation.
pub fn revert_preview(style: &Style, items: &Vec<(String, String)>) -> (s: String)
    ensures
        s@ == "\n  This will revert "@ + decimal(items@.len()) + " migration"@ + plural_text(
            items@.len(),
        ) + ":\n"@ + preview_lines(style.spec_color(), items@),
{
    let mut s = owned("\n  This will revert ");
    push_decimal_wide(&mut s, items.len() as u128);
    push_str(&mut s, " migration");
    push_str(&mut s, plural(items.len()));
    push_str(&mut s, ":\n");
    let ghost head = s@;
    let mut i: usize = 0;
    while i < items.len()
        invariant
            i <= items@.len(),
            s@ == head + preview_lines(style.spec_color(), items@.take(i as int)),
        decreases items@.len() - i,
    {
        assert(items@.take(i + 1).drop_last() == items@.take(i as int));
        let (revision, name) = &items[i];
        push_str(&mut s, "    ");
        let arrow = style.dim(sym::ARROW);
        push_str(&mut s, arrow.as_str());
        push_str(&mut s, " ");
        let rev = style.cyan(revision.as_str());
        push_str(&mut s, rev.as_str());
        push_str(&mut s, "  ");
        let n = style.dim(name.as_str());
        push_str(&mut s, n.as_str());
        push_str(&mut s, "\n");
        i = i + 1;
    }
    assert(items@.take(i as int) == items@);
    s
}

/// Whether a confirmation answer is an explicit yes: `y` or `yes` in any ASCII
/// case, around whitespace.
pub fn is_yes(input: &str) -> (b: bool)
    ensures
        b == (crate::config::ascii_lower(trim(input@)) == "y"@ || crate::config::ascii_lower(
            trim(input@),
        ) == "yes"@),
{
    let lower = crate::config::trimmed_ascii_lower(input);
    crate::config::spells(&lower, "y") || crate::config::spells(&lower, "yes")
}

/// A one-line informational message.
pub fn info(style: &Style, message: &str) -> (s: String)
    ensures
        s@ == "\n  "@ + painted(style.spec_color(), "2"@, message@) + "\n\n"@,
{
    let mut s = owned("\n  ");
    let m = style.dim(message);
    push_str(&mut s, m.as_str());
    push_str(&mut s, "\n\n");
    s
}

/// An error block (for standard error).
pub fn error(style: &Style, err: &OrmError) -> (s: String)
    ensures
        s@ == "\n  "@ + painted(style.spec_color(), "31"@, sym::CROSS@ + " Error"@) + "  "@
            + err.spec_message() + "\n\n"@,
{
    let mut head = owned(sym::CROSS);
    push_str(&mut head, " Error");
    let mut s = owned("\n  ");
    let h = style.red(head.as_str());
    push_str(&mut s, h.as_str());
    push_str(&mut s, "  ");
    push_str(&mut s, err.message());
    push_str(&mut s, "\n\n");
    s
}

/// A success line: a green check, a dimmed label and a cyan value.
pub open spec fn done_note_text(color: bool, label: Seq<char>, value: Seq<char>) -> Seq<char> {
    "\n  "@ + painted(color, "32"@, sym::CHECK@) + " "@ + painted(color, "2"@, label) + "  "@
        + painted(color, "36"@, value) + "\n\n"@
}

fn done_note(style: &Style, label: &str, value: &str) -> (s: String)
    ensures
        s@ == done_note_text(style.spec_color(), label@, value@),
{
    let mut s = owned("\n  ");
    let check = style.green(sym::CHECK);
    push_str(&mut s, check.as_str());
    push_str(&mut s, " ");
    let l = style.dim(label);
    push_str(&mut s, l.as_str());
    push_str(&mut s, "  ");
    let v = style.cyan(value);
    push_str(&mut s, v.as_str());
    push_str(&mut s, "\n\n");
    s
}

/// The text printed after `create` wrote a migration file at `path`.
pub fn created(style: &Style, path: &str) -> (s: String)
    ensures
        s@ == done_note_text(style.spec_color(), "Created"@, path@),
{
    done_note(style, "Created", path)
}

/// The text printed after `init` prepared the migrations directory `dir`.
pub fn directory_ready(style: &Style, dir: &str) -> (s: String)
    ensures
        s@ == done_note_text(style.spec_color(), "Migrations directory"@, dir@),
{
    done_note(style, "Migrations directory", dir)
}

/// The text printed after `redo`: how many migrations it reverted and applied.
pub fn redo_done(style: &Style, reverted: u64, applied: u64) -> (s: String)
    ensures
        s@ == "\n  "@ + painted(style.spec_color(), "32"@, sym::CHECK@) + " Reverted "@ + decimal(
            reverted as nat,
        ) + " and applied "@ + decimal(applied as nat) + " migration"@ + plural_text(applied as nat)
            + "\n\n"@,
{
    let mut s = owned("\n  ");
    let check = style.green(sym::CHECK);
    push_str(&mut s, check.as_str());
    push_str(&mut s, " Reverted ");
    push_decimal(&mut s, reverted);
    push_str(&mut s, " and applied ");
    push_decimal(&mut s, applied);
    push_str(&mut s, " migration");
    let suffix = if applied == 1 {
        plural(1)
    } else {
        plural(2)
    };
    push_str(&mut s, suffix);
    push_str(&mut s, "\n\n");
    s
}

/// The confirmation prompt, printed before reading the answer.
pub fn confirm_prompt(prompt: &str) -> (s: String)
    ensures
        s@ == "  "@ + prompt@ + " [y/N] "@,
{
    let mut s = owned("  ");
    push_str(&mut s, prompt);
    push_str(&mut s, " [y/N] ");
    s
}

} // verus!
