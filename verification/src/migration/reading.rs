//! What reading a rendered migration file gives back: the headers and the
//! sections that were written, so a migration generated from the models runs
//! exactly the statements it was generated with.

use vstd::prelude::*;

use crate::text::{
    contains, has_prefix, is_ws, leading_count, lemma_leading_count, lemma_lines_of_text,
    lemma_trailing_count, trailing_count, lemma_text_of_lines_concat, lines,
    occurs_at, single_line, text_of_lines, trim, trim_end, trim_start,
};

use super::files::{
    display_name, initial_state, is_marker, lemma_parse_from_concat, lemma_parse_lines_from, lemma_section_lines,
    opt_view, parse_content, parse_from, parse_lines, parse_step, parsed_file, MigrationFile,
    ParseState, Section,
};
use super::checksum::checksum_text;
use super::generate::{is_comment, migration_file_text, statement_line, statement_lines};

verus! {

/// The line a statement is written on: the statement and, unless it is a
/// comment, a `;`.
pub open spec fn written_line(s: Seq<char>) -> Seq<char> {
    s + (if is_comment(s) {
        seq![]
    } else {
        ";"@
    })
}

/// The lines statements are written on.
pub open spec fn written_lines(ss: Seq<Seq<char>>) -> Seq<Seq<char>> {
    ss.map_values(|s: Seq<char>| written_line(s))
}

/// Whether a statement is written on one line that reads back as part of its
/// section (not as a header or a section marker).
pub open spec fn plain_statement(s: Seq<char>) -> bool {
    single_line(written_line(s)) && !is_marker(trim_start(written_line(s)))
}

/// Whether a header value reads back as written: one line, without surrounding
/// whitespace.
pub open spec fn plain_header_value(v: Seq<char>) -> bool {
    single_line(v) && trim(v) == v
}

/// The text of an optional header value (nothing when absent).
pub open spec fn header_value(v: Option<Seq<char>>) -> Seq<char> {
    match v {
        Some(x) => x,
        None => seq![],
    }
}

/// The lines of a rendered migration file.
pub open spec fn file_lines(
    revision: Seq<char>,
    down_revision: Option<Seq<char>>,
    name: Seq<char>,
    up: Seq<Seq<char>>,
    down: Seq<Seq<char>>,
) -> Seq<Seq<char>> {
    head_lines(revision, down_revision, name) + written_lines(up) + middle_lines() + written_lines(
        down,
    )
}

/// The header lines and the up marker.
pub open spec fn head_lines(revision: Seq<char>, down_revision: Option<Seq<char>>, name: Seq<char>) -> Seq<
    Seq<char>,
> {
    seq![
        "-- revision: "@ + revision,
        "-- down_revision: "@ + header_value(down_revision),
        "-- name: "@ + name,
        Seq::<char>::empty(),
        "-- migrate:up"@,
    ]
}

/// The blank line and the down marker between the sections.
pub open spec fn middle_lines() -> Seq<Seq<char>> {
    seq![Seq::<char>::empty(), "-- migrate:down"@]
}

proof fn lemma_statement_lines(ss: Seq<Seq<char>>)
    ensures
        statement_lines(ss) == text_of_lines(written_lines(ss)),
    decreases ss.len(),
{
    reveal_strlit("\n");
    if ss.len() > 0 {
        lemma_statement_lines(ss.drop_last());
        assert(written_lines(ss).drop_last() == written_lines(ss.drop_last()));
        assert(written_lines(ss).last() == written_line(ss.last()));
        assert(statement_line(ss.last()) == written_line(ss.last()) + seq!['\n']);
        assert(statement_lines(ss) == text_of_lines(written_lines(ss.drop_last())) + (written_line(
            ss.last(),
        ) + seq!['\n']));
    }
}

proof fn lemma_text_single(l: Seq<char>)
    ensures
        text_of_lines(seq![l]) == l + seq!['\n'],
{
    assert(seq![l].drop_last() == Seq::<Seq<char>>::empty());
    assert(text_of_lines(Seq::<Seq<char>>::empty()) == Seq::<char>::empty());
    assert(Seq::<char>::empty() + l == l);
    assert(seq![l].last() == l);
}

proof fn lemma_head_text(revision: Seq<char>, down_revision: Option<Seq<char>>, name: Seq<char>)
    ensures
        text_of_lines(head_lines(revision, down_revision, name)) == "-- revision: "@ + revision
            + "\n"@ + "-- down_revision: "@ + header_value(down_revision) + "\n"@ + "-- name: "@
            + name + "\n\n"@ + "-- migrate:up\n"@,
{
    reveal_strlit("\n");
    reveal_strlit("\n\n");
    reveal_strlit("-- migrate:up\n");
    reveal_strlit("-- migrate:up");
    let h = head_lines(revision, down_revision, name);
    let a = seq![h[0]];
    let b = seq![h[1]];
    let c = seq![h[2]];
    let d = seq![h[3]];
    let e = seq![h[4]];
    assert(h == a + b + c + d + e);
    lemma_text_of_lines_concat(a + b + c + d, e);
    lemma_text_of_lines_concat(a + b + c, d);
    lemma_text_of_lines_concat(a + b, c);
    lemma_text_of_lines_concat(a, b);
    lemma_text_single(h[0]);
    lemma_text_single(h[1]);
    lemma_text_single(h[2]);
    lemma_text_single(h[3]);
    lemma_text_single(h[4]);
    assert(text_of_lines(h) == "-- revision: "@ + revision + "\n"@ + "-- down_revision: "@
        + header_value(down_revision) + "\n"@ + "-- name: "@ + name + "\n\n"@ + "-- migrate:up\n"@);
}

proof fn lemma_middle_text()
    ensures
        text_of_lines(middle_lines()) == "\n-- migrate:down\n"@,
{
    reveal_strlit("\n-- migrate:down\n");
    reveal_strlit("-- migrate:down");
    let m = middle_lines();
    assert(m == seq![m[0]] + seq![m[1]]);
    lemma_text_of_lines_concat(seq![m[0]], seq![m[1]]);
    lemma_text_single(m[0]);
    lemma_text_single(m[1]);
}

proof fn lemma_file_text(
    revision: Seq<char>,
    down_revision: Option<Seq<char>>,
    name: Seq<char>,
    up: Seq<Seq<char>>,
    down: Seq<Seq<char>>,
)
    ensures
        text_of_lines(file_lines(revision, down_revision, name, up, down)) == migration_file_text(
            revision,
            down_revision,
            name,
            up,
            down,
        ),
{
    let h = head_lines(revision, down_revision, name);
    let wu = written_lines(up);
    let m = middle_lines();
    let wd = written_lines(down);
    lemma_text_of_lines_concat(h + wu + m, wd);
    lemma_text_of_lines_concat(h + wu, m);
    lemma_text_of_lines_concat(h, wu);
    lemma_statement_lines(up);
    lemma_statement_lines(down);
    lemma_head_text(revision, down_revision, name);
    lemma_middle_text();
    assert(header_value(down_revision) == match down_revision {
        Some(d) => d,
        None => seq![],
    });
}

proof fn lemma_trim_start_dash(l: Seq<char>)
    requires
        l.len() > 0,
        l[0] == '-',
    ensures
        trim_start(l) == l,
{
    assert(!is_ws('-'));
    assert(leading_count(l, |c: char| is_ws(c)) == 0);
    assert(l.subrange(0, l.len() as int) == l);
}

proof fn lemma_trim_space_prefix(r: Seq<char>)
    ensures
        trim(seq![' '] + r) == trim(r),
{
    let s = seq![' '] + r;
    assert(is_ws(' '));
    assert(s.drop_first() == r);
    assert(leading_count(s, |c: char| is_ws(c)) == 1 + leading_count(r, |c: char| is_ws(c)));
    let n = leading_count(r, |c: char| is_ws(c));
    crate::text::lemma_leading_count(r, |c: char| is_ws(c));
    assert(trim_start(s) == trim_start(r)) by {
        assert(s.subrange((1 + n) as int, s.len() as int) == r.subrange(n as int, r.len() as int));
    }
}

proof fn lemma_empty_trim()
    ensures
        trim(Seq::<char>::empty()) == Seq::<char>::empty(),
        trim_start(Seq::<char>::empty()) == Seq::<char>::empty(),
{
    let e = Seq::<char>::empty();
    assert(leading_count(e, |c: char| is_ws(c)) == 0);
    assert(trim_start(e) == e);
    assert(trim_end(e) == e);
}

/// The state after the header lines of a rendered file.
proof fn lemma_head(revision: Seq<char>, down_revision: Option<Seq<char>>, name: Seq<char>)
    requires
        plain_header_value(revision),
        down_revision matches Some(d) ==> plain_header_value(d) && d.len() > 0 && d != "none"@,
    ensures
        parse_from(initial_state(), head_lines(revision, down_revision, name)).revision == Some(
            revision,
        ),
        parse_from(initial_state(), head_lines(revision, down_revision, name)).down_revision
            == down_revision,
        parse_from(initial_state(), head_lines(revision, down_revision, name)).transactional,
        parse_from(initial_state(), head_lines(revision, down_revision, name)).up
            == Seq::<char>::empty(),
        parse_from(initial_state(), head_lines(revision, down_revision, name)).down
            == Seq::<char>::empty(),
        parse_from(initial_state(), head_lines(revision, down_revision, name)).section
            == Section::Up,
{
    reveal_strlit("-- revision: ");
    reveal_strlit("-- revision:");
    reveal_strlit("-- down_revision: ");
    reveal_strlit("-- down_revision:");
    reveal_strlit("-- name: ");
    reveal_strlit("-- migrate:up");
    reveal_strlit("-- migrate:down");
    reveal_strlit("transaction:false");
    reveal_strlit("none");
    let h = head_lines(revision, down_revision, name);
    let l1 = h[0];
    let l2 = h[1];
    let l3 = h[2];
    let l4 = h[3];
    let l5 = h[4];
    let s0 = initial_state();
    // The revision header.
    lemma_trim_start_dash(l1);
    assert(has_prefix(l1, "-- revision:"@)) by {
        assert(l1.subrange(0, 12) == "-- revision:"@);
    }
    assert(l1.skip(12) == seq![' '] + revision);
    lemma_trim_space_prefix(revision);
    let s1 = parse_step(s0, l1);
    assert(s1.revision == Some(revision));
    // The down revision header.
    let dv = header_value(down_revision);
    lemma_trim_start_dash(l2);
    assert(!has_prefix(l2, "-- revision:"@)) by {
        assert(l2[3] != "-- revision:"@[3]);
        if l2.subrange(0, 12) == "-- revision:"@ {
            assert(l2.subrange(0, 12)[3] == l2[3]);
        }
    }
    assert(has_prefix(l2, "-- down_revision:"@)) by {
        assert(l2.subrange(0, 17) == "-- down_revision:"@);
    }
    assert(l2.skip(17) == seq![' '] + dv);
    lemma_trim_space_prefix(dv);
    lemma_empty_trim();
    let s2 = parse_step(s1, l2);
    assert(s2.down_revision == down_revision);
    assert(s2.revision == Some(revision));
    // The name header and the blank line belong to no section.
    lemma_trim_start_dash(l3);
    assert(!is_marker(l3)) by {
        if l3.len() >= 12 && l3.subrange(0, 12) == "-- revision:"@ {
            assert(l3.subrange(0, 12)[3] == l3[3]);
        }
        if l3.len() >= 17 && l3.subrange(0, 17) == "-- down_revision:"@ {
            assert(l3.subrange(0, 17)[3] == l3[3]);
        }
        if l3.len() >= 13 && l3.subrange(0, 13) == "-- migrate:up"@ {
            assert(l3.subrange(0, 13)[3] == l3[3]);
        }
        if l3.len() >= 15 && l3.subrange(0, 15) == "-- migrate:down"@ {
            assert(l3.subrange(0, 15)[3] == l3[3]);
        }
    }
    let s3 = parse_step(s2, l3);
    assert(s3 == s2);
    assert(trim_start(l4) == l4);
    let s4 = parse_step(s3, l4);
    assert(s4 == s3);
    // The up marker.
    lemma_trim_start_dash(l5);
    assert(!has_prefix(l5, "-- revision:"@)) by {
        if l5.subrange(0, 12) == "-- revision:"@ {
            assert(l5.subrange(0, 12)[3] == l5[3]);
        }
    }
    assert(!has_prefix(l5, "-- down_revision:"@));
    assert(has_prefix(l5, "-- migrate:up"@)) by {
        assert(l5.subrange(0, 13) == l5);
    }
    assert(l5.skip(13).len() == 0);
    assert(!contains(l5.skip(13), "transaction:false"@)) by {
        if contains(l5.skip(13), "transaction:false"@) {
            let i = choose|i: int| occurs_at(l5.skip(13), "transaction:false"@, i);
            assert(occurs_at(l5.skip(13), "transaction:false"@, i));
        }
    }
    let s5 = parse_step(s4, l5);
    assert(s5.section == Section::Up);
    assert(s5.transactional);
    // The five steps.
    reveal_with_fuel(parse_from, 6);
    assert(h.drop_last() == seq![l1, l2, l3, l4]);
    assert(h.drop_last().drop_last() == seq![l1, l2, l3]);
    assert(h.drop_last().drop_last().drop_last() == seq![l1, l2]);
    assert(h.drop_last().drop_last().drop_last().drop_last() == seq![l1]);
    assert(seq![l1].drop_last() == Seq::<Seq<char>>::empty());
    assert(parse_from(s0, h) == s5);
}

/// The state after the blank line and the down marker, read inside the up
/// section.
proof fn lemma_middle(st: ParseState)
    requires
        st.section == Section::Up,
    ensures
        parse_from(st, middle_lines()).revision == st.revision,
        parse_from(st, middle_lines()).down_revision == st.down_revision,
        parse_from(st, middle_lines()).transactional == st.transactional,
        parse_from(st, middle_lines()).up == st.up + seq!['\n'],
        parse_from(st, middle_lines()).down == st.down,
        parse_from(st, middle_lines()).section == Section::Down,
{
    reveal_strlit("-- revision:");
    reveal_strlit("-- down_revision:");
    reveal_strlit("-- migrate:up");
    reveal_strlit("-- migrate:down");
    let m = middle_lines();
    let blank = m[0];
    let marker = m[1];
    lemma_empty_trim();
    let s1 = parse_step(st, blank);
    assert(!is_marker(trim_start(blank)));
    assert(s1.up == st.up + blank + seq!['\n']);
    assert(st.up + blank + seq!['\n'] == st.up + seq!['\n']);
    lemma_trim_start_dash(marker);
    assert(!has_prefix(marker, "-- revision:"@)) by {
        if marker.subrange(0, 12) == "-- revision:"@ {
            assert(marker.subrange(0, 12)[3] == marker[3]);
        }
    }
    assert(!has_prefix(marker, "-- down_revision:"@));
    assert(!has_prefix(marker, "-- migrate:up"@)) by {
        if marker.subrange(0, 13) == "-- migrate:up"@ {
            assert(marker.subrange(0, 13)[11] == marker[11]);
        }
    }
    assert(has_prefix(marker, "-- migrate:down"@)) by {
        assert(marker.subrange(0, 15) == marker);
    }
    reveal_with_fuel(parse_from, 3);
    assert(m.drop_last() == seq![blank]);
    assert(seq![blank].drop_last() == Seq::<Seq<char>>::empty());
}

/// Reading a rendered migration file gives back what was written: its revision,
/// its down revision, the up statements (each on its line, then the blank line
/// before the down marker) and the down statements, in a transaction. This holds
/// when the header values are single lines without surrounding whitespace (a down
/// revision also not empty and not `none`, which read back as no down revision)
/// and each statement is written on a single line that is no header or marker.
pub proof fn lemma_rendered_file_reads_back(
    revision: Seq<char>,
    down_revision: Option<Seq<char>>,
    name: Seq<char>,
    up: Seq<Seq<char>>,
    down: Seq<Seq<char>>,
)
    requires
        plain_header_value(revision),
        down_revision matches Some(d) ==> plain_header_value(d) && d.len() > 0 && d != "none"@,
        single_line(name),
        forall|i: int| 0 <= i < up.len() ==> plain_statement(#[trigger] up[i]),
        forall|i: int| 0 <= i < down.len() ==> plain_statement(#[trigger] down[i]),
    ensures
        parse_content(migration_file_text(revision, down_revision, name, up, down)).revision == Some(
            revision,
        ),
        parse_content(migration_file_text(revision, down_revision, name, up, down)).down_revision
            == down_revision,
        parse_content(migration_file_text(revision, down_revision, name, up, down)).transactional,
        parse_content(migration_file_text(revision, down_revision, name, up, down)).up
            == statement_lines(up) + "\n"@,
        parse_content(migration_file_text(revision, down_revision, name, up, down)).down
            == statement_lines(down),
{
    reveal_strlit("\n");
    reveal_strlit("-- revision: ");
    reveal_strlit("-- down_revision: ");
    reveal_strlit("-- name: ");
    reveal_strlit("-- migrate:up");
    reveal_strlit("-- migrate:down");
    let h = head_lines(revision, down_revision, name);
    let wu = written_lines(up);
    let m = middle_lines();
    let wd = written_lines(down);
    let ls = file_lines(revision, down_revision, name, up, down);
    // The text splits into exactly these lines.
    lemma_file_text(revision, down_revision, name, up, down);
    assert forall|i: int| 0 <= i < ls.len() implies single_line(#[trigger] ls[i]) by {
        if i < 5 {
            assert(ls[i] == h[i]);
            let dv = header_value(down_revision);
            assert(single_line(dv));
        } else if i < 5 + wu.len() {
            assert(ls[i] == wu[i - 5]);
            assert(plain_statement(up[i - 5]));
        } else if i < 7 + wu.len() {
            assert(ls[i] == m[i - 5 - wu.len()]);
        } else {
            assert(ls[i] == wd[i - 7 - wu.len()]);
            assert(plain_statement(down[i - 7 - wu.len()]));
        }
    }
    lemma_lines_of_text(ls);
    lemma_parse_lines_from(ls);
    // Reading them section by section.
    lemma_parse_from_concat(initial_state(), h + wu + m, wd);
    lemma_parse_from_concat(initial_state(), h + wu, m);
    lemma_parse_from_concat(initial_state(), h, wu);
    lemma_head(revision, down_revision, name);
    let s5 = parse_from(initial_state(), h);
    assert forall|i: int| 0 <= i < wu.len() implies !is_marker(trim_start(#[trigger] wu[i])) by {
        assert(plain_statement(up[i]));
    }
    lemma_section_lines(s5, wu);
    let su = parse_from(s5, wu);
    lemma_middle(su);
    let sm = parse_from(su, m);
    assert forall|i: int| 0 <= i < wd.len() implies !is_marker(trim_start(#[trigger] wd[i])) by {
        assert(plain_statement(down[i]));
    }
    lemma_section_lines(sm, wd);
    lemma_statement_lines(up);
    lemma_statement_lines(down);
    assert(Seq::<char>::empty() + text_of_lines(wu) + seq!['\n'] == statement_lines(up) + "\n"@);
    assert(Seq::<char>::empty() + text_of_lines(wd) == statement_lines(down));
}

/// A migration file parsed from a rendered file holds what was rendered: the
/// revision, the down revision, the up statements (each on its line, then a
/// blank line) and the down statements when there are any, in a transaction.
pub proof fn lemma_parsed_rendered_file(
    f: MigrationFile,
    stem: Seq<char>,
    revision: Seq<char>,
    down_revision: Option<Seq<char>>,
    name: Seq<char>,
    up: Seq<Seq<char>>,
    down: Seq<Seq<char>>,
)
    requires
        plain_header_value(revision),
        down_revision matches Some(d) ==> plain_header_value(d) && d.len() > 0 && d != "none"@,
        single_line(name),
        forall|i: int| 0 <= i < up.len() ==> plain_statement(#[trigger] up[i]),
        forall|i: int| 0 <= i < down.len() ==> plain_statement(#[trigger] down[i]),
        parsed_file(f, migration_file_text(revision, down_revision, name, up, down), stem),
    ensures
        f.revision@ == revision,
        opt_view(f.down_revision) == down_revision,
        f.up_sql@ == statement_lines(up) + "\n"@,
        opt_view(f.down_sql) == (if trim(statement_lines(down)).len() > 0 {
            Some(statement_lines(down))
        } else {
            None
        }),
        f.transactional,
{
    lemma_rendered_file_reads_back(revision, down_revision, name, up, down);
}

/// Text that holds a character other than whitespace is not blank once trimmed.
proof fn lemma_not_blank(s: Seq<char>, j: int)
    requires
        0 <= j < s.len(),
        !is_ws(s[j]),
    ensures
        trim(s).len() > 0,
{
    let l = leading_count(s, |c: char| is_ws(c));
    lemma_leading_count(s, |c: char| is_ws(c));
    if j < l {
        assert((|c: char| is_ws(c))(s[j]));
    }
    let t = trim_start(s);
    assert(t[j - l] == s[j]);
    let n = trailing_count(t, |c: char| is_ws(c));
    lemma_trailing_count(t, |c: char| is_ws(c));
    if j - l >= t.len() - n {
        assert((|c: char| is_ws(c))(t[j - l]));
    }
}

/// The up section of a file with at least one up statement is not blank.
proof fn lemma_up_not_blank(up: Seq<Seq<char>>)
    requires
        up.len() > 0,
    ensures
        trim(statement_lines(up) + "\n"@).len() > 0,
{
    let last = up.last();
    let before = statement_lines(up.drop_last());
    let text = statement_lines(up) + "\n"@;
    assert(statement_lines(up) == before + statement_line(last));
    reveal_strlit(";");
    if is_comment(last) {
        let l = leading_count(last, |c: char| is_ws(c));
        lemma_leading_count(last, |c: char| is_ws(c));
        let ts = trim_start(last);
        reveal_strlit("--");
        assert(has_prefix(ts, "--"@));
        assert(ts.subrange(0, 2) == "--"@);
        assert(ts.subrange(0, 2)[0] == ts[0]);
        assert("--"@[0] == '-');
        assert(ts[0] == '-');
        assert(last[l as int] == '-');
        assert(text[(before.len() + l) as int] == last[l as int]);
        lemma_not_blank(text, (before.len() + l) as int);
    } else {
        assert(text[(before.len() + last.len()) as int] == ';');
        lemma_not_blank(text, (before.len() + last.len()) as int);
    }
}

/// A rendered migration file with at least one up statement parses, under the
/// conditions of [`lemma_rendered_file_reads_back`]: its revision header is read
/// and its up section is not blank, so `parse` succeeds; and the file it gives
/// holds what was rendered, with its display name from the file name and the
/// checksum of its up section.
pub proof fn lemma_rendered_file_parses(
    stem: Seq<char>,
    revision: Seq<char>,
    down_revision: Option<Seq<char>>,
    name: Seq<char>,
    up: Seq<Seq<char>>,
    down: Seq<Seq<char>>,
)
    requires
        plain_header_value(revision),
        down_revision matches Some(d) ==> plain_header_value(d) && d.len() > 0 && d != "none"@,
        single_line(name),
        up.len() > 0,
        forall|i: int| 0 <= i < up.len() ==> plain_statement(#[trigger] up[i]),
        forall|i: int| 0 <= i < down.len() ==> plain_statement(#[trigger] down[i]),
    ensures
        parse_content(migration_file_text(revision, down_revision, name, up, down)).revision == Some(
            revision,
        ),
        trim(parse_content(migration_file_text(revision, down_revision, name, up, down)).up).len() > 0,
        forall|f: MigrationFile|
            parsed_file(f, migration_file_text(revision, down_revision, name, up, down), stem) ==> {
                &&& f.revision@ == revision
                &&& opt_view(f.down_revision) == down_revision
                &&& f.name@ == display_name(stem, revision)
                &&& f.up_sql@ == statement_lines(up) + "\n"@
                &&& opt_view(f.down_sql) == (if trim(statement_lines(down)).len() > 0 {
                    Some(statement_lines(down))
                } else {
                    None
                })
                &&& f.transactional
                &&& f.checksum@ == checksum_text(seq![statement_lines(up) + "\n"@])
            },
{
    lemma_rendered_file_reads_back(revision, down_revision, name, up, down);
    lemma_up_not_blank(up);
}

} // verus!
