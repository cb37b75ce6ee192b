//! SQL-file migrations: a revision chain of plain `.sql` files.
//!
//! Each migration is a `.sql` file with a `-- revision:` id and a
//! `-- down_revision:` pointer to the one it follows, plus `-- migrate:up` and
//! optional `-- migrate:down` sections. Identity and order come from those
//! headers — the chain, not the file name — so files can be renamed freely.
//!
//! This module parses files, validates and orders the chain, and resolves
//! revision prefixes.

use vstd::prelude::*;

use crate::error::{ErrorKind, OrmError};
use crate::migration::checksum::{checksum_of_text, checksum_text};
use crate::text::{
    chars_of, text_of_lines, contains, contains_chars, find_newline, has_prefix, is_blank, line_end, lines,
    lines_from, owned, push_char, push_range, push_str, string_of_range, trim, trim_bounds,
    trim_start, lemma_next_newline, next_newline, line_between, occurs_at_exec, starts_with,
};

verus! {

/// A parsed migration file.
#[derive(Debug)]
pub struct MigrationFile {
    /// The revision id.
    pub revision: String,
    /// The revision this one follows, if any.
    pub down_revision: Option<String>,
    /// The display name (the file stem without the `<revision>_` prefix).
    pub name: String,
    /// The `-- migrate:up` section.
    pub up_sql: String,
    /// The `-- migrate:down` section, when it holds anything.
    pub down_sql: Option<String>,
    /// Whether the migration runs inside a transaction.
    pub transactional: bool,
    /// The checksum of the up section.
    pub checksum: String,
}

/// The view of an optional string.
pub open spec fn opt_view(s: Option<String>) -> Option<Seq<char>> {
    match s {
        Some(v) => Some(v@),
        None => None,
    }
}

/// The section of a migration file a line belongs to.
#[derive(PartialEq, Eq, Structural, Clone, Copy)]
pub enum Section {
    /// Before any section marker.
    Preamble,
    /// The `-- migrate:up` section.
    Up,
    /// The `-- migrate:down` section.
    Down,
}

/// What the parser has read so far.
pub ghost struct ParseState {
    /// The last `-- revision:` value.
    pub revision: Option<Seq<char>>,
    /// The last `-- down_revision:` value (`None` when empty or `none`).
    pub down_revision: Option<Seq<char>>,
    /// Cleared by a `-- migrate:up` marker that mentions `transaction:false`.
    pub transactional: bool,
    /// The up section, one line and a newline per line.
    pub up: Seq<char>,
    /// The down section, one line and a newline per line.
    pub down: Seq<char>,
    /// The section the next line belongs to.
    pub section: Section,
}

/// The state before the first line.
pub open spec fn initial_state() -> ParseState {
    ParseState {
        revision: None,
        down_revision: None,
        transactional: true,
        up: seq![],
        down: seq![],
        section: Section::Preamble,
    }
}

/// The state after reading one more line.
pub open spec fn parse_step(st: ParseState, line: Seq<char>) -> ParseState {
    let t = trim_start(line);
    if has_prefix(t, "-- revision:"@) {
        ParseState { revision: Some(trim(t.skip(12))), ..st }
    } else if has_prefix(t, "-- down_revision:"@) {
        let v = trim(t.skip(17));
        ParseState {
            down_revision: if v.len() > 0 && v != "none"@ {
                Some(v)
            } else {
                None
            },
            ..st
        }
    } else if has_prefix(t, "-- migrate:up"@) {
        ParseState {
            section: Section::Up,
            transactional: if contains(t.skip(13), "transaction:false"@) {
                false
            } else {
                st.transactional
            },
            ..st
        }
    } else if has_prefix(t, "-- migrate:down"@) {
        ParseState { section: Section::Down, ..st }
    } else {
        match st.section {
            Section::Up => ParseState { up: st.up + line + seq!['\n'], ..st },
            Section::Down => ParseState { down: st.down + line + seq!['\n'], ..st },
            Section::Preamble => st,
        }
    }
}

/// The state after reading `lines` in order.
pub open spec fn parse_lines(ls: Seq<Seq<char>>) -> ParseState
    decreases ls.len(),
{
    if ls.len() == 0 {
        initial_state()
    } else {
        parse_step(parse_lines(ls.drop_last()), ls.last())
    }
}

/// The state after reading every line of `content`.
pub open spec fn parse_content(content: Seq<char>) -> ParseState {
    parse_lines(lines(content))
}

/// The state after reading `ls` in order, starting from `st`.
pub open spec fn parse_from(st: ParseState, ls: Seq<Seq<char>>) -> ParseState
    decreases ls.len(),
{
    if ls.len() == 0 {
        st
    } else {
        parse_step(parse_from(st, ls.drop_last()), ls.last())
    }
}

pub proof fn lemma_parse_lines_from(ls: Seq<Seq<char>>)
    ensures
        parse_lines(ls) == parse_from(initial_state(), ls),
    decreases ls.len(),
{
    if ls.len() > 0 {
        lemma_parse_lines_from(ls.drop_last());
    }
}

pub proof fn lemma_parse_from_concat(st: ParseState, a: Seq<Seq<char>>, b: Seq<Seq<char>>)
    ensures
        parse_from(st, a + b) == parse_from(parse_from(st, a), b),
    decreases b.len(),
{
    if b.len() == 0 {
        assert(a + b == a);
    } else {
        assert((a + b).drop_last() == a + b.drop_last());
        lemma_parse_from_concat(st, a, b.drop_last());
        assert((a + b).last() == b.last());
    }
}

/// Whether a line, after its leading whitespace, is a header or section marker.
pub open spec fn is_marker(t: Seq<char>) -> bool {
    ||| has_prefix(t, "-- revision:"@)
    ||| has_prefix(t, "-- down_revision:"@)
    ||| has_prefix(t, "-- migrate:up"@)
    ||| has_prefix(t, "-- migrate:down"@)
}

/// Inside a section, lines that are not markers are appended to it, each with
/// its newline, and nothing else changes.
pub proof fn lemma_section_lines(st: ParseState, ls: Seq<Seq<char>>)
    requires
        st.section != Section::Preamble,
        forall|i: int| 0 <= i < ls.len() ==> !is_marker(trim_start(#[trigger] ls[i])),
    ensures
        parse_from(st, ls).revision == st.revision,
        parse_from(st, ls).down_revision == st.down_revision,
        parse_from(st, ls).transactional == st.transactional,
        parse_from(st, ls).section == st.section,
        st.section == Section::Up ==> parse_from(st, ls).up == st.up + text_of_lines(ls)
            && parse_from(st, ls).down == st.down,
        st.section == Section::Down ==> parse_from(st, ls).down == st.down + text_of_lines(ls)
            && parse_from(st, ls).up == st.up,
    decreases ls.len(),
{
    if ls.len() > 0 {
        let init = ls.drop_last();
        assert forall|i: int| 0 <= i < init.len() implies !is_marker(trim_start(#[trigger] init[i])) by {
            assert(init[i] == ls[i]);
        }
        lemma_section_lines(st, init);
        assert(!is_marker(trim_start(ls[ls.len() - 1])));
        let prev = parse_from(st, init);
        let l = ls.last();
        if st.section == Section::Up {
            assert(prev.up + l + seq!['\n'] == st.up + text_of_lines(ls));
        } else {
            assert(prev.down + l + seq!['\n'] == st.down + text_of_lines(ls));
        }
    }
}

/// Whether a line is a `-- migrate:up` marker (after leading whitespace) that
/// mentions `transaction:false` after the marker.
pub open spec fn disables_transaction(line: Seq<char>) -> bool {
    &&& has_prefix(trim_start(line), "-- migrate:up"@)
    &&& contains(trim_start(line).skip(13), "transaction:false"@)
}

/// A migration runs inside a transaction unless one of its lines is a
/// `-- migrate:up` marker that mentions `transaction:false`.
pub proof fn lemma_transactional_iff_no_marker(ls: Seq<Seq<char>>)
    ensures
        parse_lines(ls).transactional <==> !(exists|i: int|
            0 <= i < ls.len() && disables_transaction(#[trigger] ls[i])),
    decreases ls.len(),
{
    reveal_strlit("-- migrate:up");
    reveal_strlit("-- revision:");
    reveal_strlit("-- down_revision:");
    if ls.len() > 0 {
        let init = ls.drop_last();
        let l = ls.last();
        lemma_transactional_iff_no_marker(init);
        let t = trim_start(l);
        if has_prefix(t, "-- revision:"@) && has_prefix(t, "-- migrate:up"@) {
            assert(t.subrange(0, 12)[3] == t[3]);
            assert(t.subrange(0, 13)[3] == t[3]);
        }
        if has_prefix(t, "-- down_revision:"@) && has_prefix(t, "-- migrate:up"@) {
            assert(t.subrange(0, 17)[3] == t[3]);
            assert(t.subrange(0, 13)[3] == t[3]);
        }
        assert(parse_step(parse_lines(init), l).transactional == (parse_lines(init).transactional
            && !disables_transaction(l)));
        if exists|i: int| 0 <= i < init.len() && disables_transaction(#[trigger] init[i]) {
            let i = choose|i: int| 0 <= i < init.len() && disables_transaction(#[trigger] init[i]);
            assert(ls[i] == init[i]);
        }
        if exists|i: int| 0 <= i < ls.len() && disables_transaction(#[trigger] ls[i]) {
            let i = choose|i: int| 0 <= i < ls.len() && disables_transaction(#[trigger] ls[i]);
            if i < init.len() {
                assert(ls[i] == init[i]);
            }
        }
    }
}

/// The display name of a migration: the stem without a `<revision>_` prefix.
pub open spec fn display_name(stem: Seq<char>, revision: Seq<char>) -> Seq<char> {
    let prefix = revision + seq!['_'];
    if has_prefix(stem, prefix) {
        stem.skip(prefix.len() as int)
    } else {
        stem
    }
}

/// Whether `f` is the file parsed from `content` under the file stem `stem`.
pub open spec fn parsed_file(f: MigrationFile, content: Seq<char>, stem: Seq<char>) -> bool {
    let st = parse_content(content);
    &&& st.revision is Some
    &&& f.revision@ == st.revision.unwrap()
    &&& opt_view(f.down_revision) == st.down_revision
    &&& f.name@ == display_name(stem, st.revision.unwrap())
    &&& f.up_sql@ == st.up
    &&& opt_view(f.down_sql) == (if trim(st.down).len() > 0 {
        Some(st.down)
    } else {
        None
    })
    &&& f.transactional == st.transactional
    &&& f.checksum@ == checksum_text(seq![st.up])
}

/// A migration's identity comes from its headers, not its file name: the same
/// contents read under two file names give the same revision, down revision,
/// sections, transaction mode and checksum (only the display name may differ).
pub proof fn lemma_renaming_keeps_identity(
    f1: MigrationFile,
    f2: MigrationFile,
    content: Seq<char>,
    stem1: Seq<char>,
    stem2: Seq<char>,
)
    requires
        parsed_file(f1, content, stem1),
        parsed_file(f2, content, stem2),
    ensures
        f1.revision@ == f2.revision@,
        opt_view(f1.down_revision) == opt_view(f2.down_revision),
        f1.up_sql@ == f2.up_sql@,
        opt_view(f1.down_sql) == opt_view(f2.down_sql),
        f1.transactional == f2.transactional,
        f1.checksum@ == f2.checksum@,
{
}

/// The message of a file without a revision header.
pub open spec fn missing_revision_message(stem: Seq<char>) -> Seq<char> {
    "migration `"@ + stem + "` is missing a `-- revision:` header"@
}

/// The message of a file without an up section.
pub open spec fn missing_up_message(stem: Seq<char>) -> Seq<char> {
    "migration `"@ + stem + "` is missing a `-- migrate:up` section"@
}

/// The executable form of the parse state.
struct ExecState {
    revision: Option<String>,
    down_revision: Option<String>,
    transactional: bool,
    up: String,
    down: String,
    section: Section,
}

/// Whether the executable state holds exactly the spec state.
spec fn state_is(e: ExecState, s: ParseState) -> bool {
    &&& opt_view(e.revision) == s.revision
    &&& opt_view(e.down_revision) == s.down_revision
    &&& e.transactional == s.transactional
    &&& e.up@ == s.up
    &&& e.down@ == s.down
    &&& e.section == s.section
}

/// Whether the literal `lit` occurs in `line` at index `at`.
fn prefix_at(line: &Vec<char>, at: usize, lit: &str) -> (b: bool)
    requires
        at <= line@.len(),
    ensures
        b == has_prefix(line@.subrange(at as int, line@.len() as int), lit@),
{
    let l = chars_of(lit);
    let r = occurs_at_exec(line, &l, at);
    proof {
        let t = line@.subrange(at as int, line@.len() as int);
        if r {
            assert(t.subrange(0, l@.len() as int) == line@.subrange(at as int, at + l@.len()));
        }
        if has_prefix(t, lit@) {
            assert(t.subrange(0, l@.len() as int) == line@.subrange(at as int, at + l@.len()));
        }
    }
    r
}

/// The trimmed text of `line` from index `from` on, as a string.
fn trimmed_rest(line: &Vec<char>, from: usize) -> (s: String)
    requires
        from <= line@.len(),
    ensures
        s@ == trim(line@.subrange(from as int, line@.len() as int)),
{
    let rest = string_of_range(line, from, line.len());
    let rc = chars_of(rest.as_str());
    let (a, b) = trim_bounds(&rc);
    string_of_range(&rc, a, b)
}

/// Applies one line to the executable state.
fn step_exec(st: &mut ExecState, line: &Vec<char>)
    ensures
        forall|s: ParseState| state_is(*old(st), s) ==> state_is(*final(st), parse_step(s, line@)),
{
    let ghost t = trim_start(line@);
    let (ts, _te) = trim_bounds(line);
    let n = line.len();
    assert(t == line@.subrange(ts as int, line@.len() as int));
    proof {
        reveal_strlit("-- revision:");
        reveal_strlit("-- down_revision:");
        reveal_strlit("-- migrate:up");
        reveal_strlit("-- migrate:down");
    }
    assert("-- revision:"@.len() == 12);
    assert("-- down_revision:"@.len() == 17);
    assert("-- migrate:up"@.len() == 13);
    if prefix_at(line, ts, "-- revision:") {
        assert(has_prefix(t, "-- revision:"@));
        assert(ts + 12 <= line@.len());
        assert(t.skip(12) == line@.subrange(ts + 12, line@.len() as int));
        st.revision = Some(trimmed_rest(line, ts + 12));
    } else if prefix_at(line, ts, "-- down_revision:") {
        assert(ts + 17 <= line@.len());
        assert(t.skip(17) == line@.subrange(ts + 17, line@.len() as int));
        let v = trimmed_rest(line, ts + 17);
        let vc = chars_of(v.as_str());
        let none = chars_of("none");
        proof {
            reveal_strlit("none");
        }
        let is_none = vc.len() == 4 && vc[0] == 'n' && vc[1] == 'o' && vc[2] == 'n' && vc[3]
            == 'e';
        proof {
            if v@ == "none"@ {
                assert(vc@ == none@);
            }
            if is_none {
                assert(vc@ == none@);
            }
        }
        if vc.len() > 0 && !is_none {
            st.down_revision = Some(v);
        } else {
            st.down_revision = None;
        }
    } else if prefix_at(line, ts, "-- migrate:up") {
        assert(t.skip(13) == line@.subrange(ts + 13, line@.len() as int));
        st.section = Section::Up;
        let rest: Vec<char> = {
            let r = string_of_range(line, ts + 13, line.len());
            chars_of(r.as_str())
        };
        let marker = chars_of("transaction:false");
        if contains_chars(&rest, &marker) {
            st.transactional = false;
        }
    } else if prefix_at(line, ts, "-- migrate:down") {
        st.section = Section::Down;
    } else {
        match st.section {
            Section::Up => {
                let ls = string_of_range(line, 0, line.len());
                assert(line@.subrange(0, line@.len() as int) == line@);
                let ghost before = st.up@;
                push_str(&mut st.up, ls.as_str());
                push_char(&mut st.up, '\n');
                assert(st.up@ == before + line@ + seq!['\n']);
            },
            Section::Down => {
                let ls = string_of_range(line, 0, line.len());
                assert(line@.subrange(0, line@.len() as int) == line@);
                let ghost before = st.down@;
                push_str(&mut st.down, ls.as_str());
                push_char(&mut st.down, '\n');
                assert(st.down@ == before + line@ + seq!['\n']);
            },
            Section::Preamble => {},
        }
    }
}

/// Reads every line of `content` into a parse state.
fn read_lines(content: &str) -> (st: ExecState)
    ensures
        state_is(st, parse_content(content@)),
{
    let chars = chars_of(content);
    let mut st = ExecState {
        revision: None,
        down_revision: None,
        transactional: true,
        up: String::new(),
        down: String::new(),
        section: Section::Preamble,
    };
    let ghost mut done: Seq<Seq<char>> = seq![];
    let mut i: usize = 0;
    while i < chars.len()
        invariant
            i <= chars@.len(),
            chars@ == content@,
            lines(chars@) == done + lines_from(chars@, i as int),
            state_is(st, parse_lines(done)),
        decreases chars@.len() - i,
    {
        let j = find_newline(&chars, i);
        let e = line_end(&chars, i, j);
        let line = {
            let s = string_of_range(&chars, i, e);
            chars_of(s.as_str())
        };
        proof {
            lemma_next_newline(chars@, i as int);
            let l = line_between(chars@, i as int, j as int);
            if j >= chars@.len() {
                assert(line_between(chars@, i as int, chars@.len() as int) == l);
                assert(lines_from(chars@, i as int) == seq![l]);
                assert(lines_from(chars@, j + 1) == Seq::<Seq<char>>::empty());
            } else {
                assert(lines_from(chars@, i as int) == seq![l] + lines_from(chars@, j + 1));
            }
            assert(done.push(l).drop_last() == done);
        }
        let ghost prev = parse_lines(done);
        step_exec(&mut st, &line);
        proof {
            done = done.push(line@);
            assert(done + lines_from(chars@, j + 1) == (done.drop_last() + seq![line@])
                + lines_from(chars@, j + 1));
        }
        if j >= chars.len() {
            i = chars.len();
            proof {
                assert(lines_from(chars@, i as int) == Seq::<Seq<char>>::empty());
                assert(done + lines_from(chars@, i as int) == done);
            }
        } else {
            i = j + 1;
        }
    }
    proof {
        assert(lines_from(chars@, i as int) == Seq::<Seq<char>>::empty());
        assert(done + lines_from(chars@, i as int) == done);
    }
    st
}

/// The stem without a `<revision>_` prefix.
fn display_name_exec(stem: &str, revision: &str) -> (n: String)
    ensures
        n@ == display_name(stem@, revision@),
{
    let mut prefix = owned(revision);
    push_char(&mut prefix, '_');
    assert(prefix@ == revision@ + seq!['_']);
    if starts_with(stem, prefix.as_str()) {
        let sc = chars_of(stem);
        let pc = chars_of(prefix.as_str());
        string_of_range(&sc, pc.len(), sc.len())
    } else {
        owned(stem)
    }
}

/// Parses a migration file's headers and up/down sections.
///
/// Fails with a configuration error when the file has no `-- revision:` header
/// or its up section is blank.
pub fn parse(content: &str, stem: &str) -> (r: Result<MigrationFile, OrmError>)
    ensures
        parse_content(content@).revision is None ==> (r matches Err(e) && e.spec_kind()
            == ErrorKind::Configuration && e.spec_message() == missing_revision_message(stem@)),
        parse_content(content@).revision is Some && trim(parse_content(content@).up).len()
            == 0 ==> (r matches Err(e) && e.spec_kind() == ErrorKind::Configuration
            && e.spec_message() == missing_up_message(stem@)),
        parse_content(content@).revision is Some && trim(parse_content(content@).up).len() > 0
            ==> (r matches Ok(f) && parsed_file(f, content@, stem@)),
        r matches Ok(f) ==> (f.transactional <==> !(exists|i: int|
            0 <= i < lines(content@).len() && disables_transaction(#[trigger] lines(content@)[i]))),
{
    proof {
        lemma_transactional_iff_no_marker(lines(content@));
    }
    let st = read_lines(content);
    let ExecState { revision, down_revision, transactional, up, down, section: _ } = st;
    let revision = match revision {
        Some(r) => r,
        None => {
            let mut m = owned("migration `");
            push_str(&mut m, stem);
            push_str(&mut m, "` is missing a `-- revision:` header");
            return Err(OrmError::configuration(m.as_str()));
        },
    };
    if is_blank(up.as_str()) {
        let mut m = owned("migration `");
        push_str(&mut m, stem);
        push_str(&mut m, "` is missing a `-- migrate:up` section");
        return Err(OrmError::configuration(m.as_str()));
    }
    let name = display_name_exec(stem, revision.as_str());
    let checksum = checksum_of_text(up.as_str());
    let down_sql = if is_blank(down.as_str()) {
        None
    } else {
        Some(down)
    };
    Ok(MigrationFile { revision, down_revision, name, up_sql: up, down_sql, transactional, checksum })
}


// ---------------------------------------------------------------------------
// The revision chain
// ---------------------------------------------------------------------------

/// The revision of the `i`-th file.
pub open spec fn rev_of(files: Seq<MigrationFile>, i: int) -> Seq<char> {
    files[i].revision@
}

/// The down revision of the `i`-th file.
pub open spec fn down_of(files: Seq<MigrationFile>, i: int) -> Option<Seq<char>> {
    opt_view(files[i].down_revision)
}

/// No two files share a revision.
pub open spec fn revisions_unique(files: Seq<MigrationFile>) -> bool {
    forall|i: int, j: int|
        0 <= i < files.len() && 0 <= j < files.len() && i != j ==> rev_of(files, i) != rev_of(
            files,
            j,
        )
}

/// `order` lists every file index once, the first with no down revision and each
/// following one pointing at its predecessor.
pub open spec fn chain_order(files: Seq<MigrationFile>, order: Seq<int>) -> bool {
    &&& order.len() == files.len()
    &&& order.no_duplicates()
    &&& forall|t: int| 0 <= t < order.len() ==> 0 <= #[trigger] order[t] < files.len()
    &&& order.len() > 0 ==> down_of(files, order[0]) is None
    &&& forall|t: int|
        0 < t < order.len() ==> down_of(files, #[trigger] order[t]) == Some(
            rev_of(files, order[t - 1]),
        )
}

/// The files form a single linear chain: unique revisions that some order links
/// base to head.
pub open spec fn forms_chain(files: Seq<MigrationFile>) -> bool {
    revisions_unique(files) && exists|order: Seq<int>| chain_order(files, order)
}

/// `out` is `files` taken in `order`.
pub open spec fn taken_in_order(
    out: Seq<MigrationFile>,
    files: Seq<MigrationFile>,
    order: Seq<int>,
) -> bool {
    out.len() == order.len() && forall|t: int| 0 <= t < out.len() ==> #[trigger] out[t] == files[order[t]]
}

proof fn lemma_order_covers(order: Seq<int>, n: int)
    requires
        order.len() == n,
        order.no_duplicates(),
        forall|t: int| 0 <= t < order.len() ==> 0 <= #[trigger] order[t] < n,
    ensures
        forall|k: int| 0 <= k < n ==> order.contains(k),
{
    broadcast use vstd::seq_lib::group_seq_properties;

    order.unique_seq_to_set();
    vstd::set_lib::lemma_int_range(0, n);
    let r = vstd::set_lib::set_int_range(0, n);
    assert(order.to_set().subset_of(r)) by {
        assert forall|x: int| order.to_set().contains(x) implies r.contains(x) by {
            let t = choose|t: int| 0 <= t < order.len() && order[t] == x;
        }
    }
    vstd::set_lib::lemma_subset_equality(order.to_set(), r);
    assert forall|k: int| 0 <= k < n implies order.contains(k) by {
        assert(r.contains(k));
        assert(order.to_set().contains(k));
    }
}

/// The position of index `k` in a chain order.
proof fn lemma_position(files: Seq<MigrationFile>, order: Seq<int>, k: int) -> (t: int)
    requires
        chain_order(files, order),
        0 <= k < files.len(),
    ensures
        0 <= t < order.len(),
        order[t] == k,
{
    lemma_order_covers(order, files.len() as int);
    assert(order.contains(k));
    choose|t: int| 0 <= t < order.len() && order[t] == k
}

/// Two files without a down revision cannot both be in a chain.
proof fn lemma_two_bases(files: Seq<MigrationFile>, i: int, j: int)
    requires
        0 <= i < files.len(),
        0 <= j < files.len(),
        i != j,
        down_of(files, i) is None,
        down_of(files, j) is None,
    ensures
        !exists|order: Seq<int>| chain_order(files, order),
{
    if exists|order: Seq<int>| chain_order(files, order) {
        let order = choose|order: Seq<int>| chain_order(files, order);
        let ti = lemma_position(files, order, i);
        let tj = lemma_position(files, order, j);
        if ti > 0 {
            assert(down_of(files, order[ti]) is Some);
        }
        if tj > 0 {
            assert(down_of(files, order[tj]) is Some);
        }
    }
}

/// A file whose down revision names no file cannot be in a chain.
proof fn lemma_dangling(files: Seq<MigrationFile>, i: int, p: Seq<char>)
    requires
        0 <= i < files.len(),
        down_of(files, i) == Some(p),
        forall|k: int| 0 <= k < files.len() ==> rev_of(files, k) != p,
    ensures
        !exists|order: Seq<int>| chain_order(files, order),
{
    if exists|order: Seq<int>| chain_order(files, order) {
        let order = choose|order: Seq<int>| chain_order(files, order);
        let t = lemma_position(files, order, i);
        if t > 0 {
            assert(rev_of(files, order[t - 1]) == p);
        }
    }
}

/// Two files following the same revision cannot both be in a chain.
proof fn lemma_branch(files: Seq<MigrationFile>, i: int, m: int, p: Seq<char>)
    requires
        revisions_unique(files),
        0 <= i < files.len(),
        0 <= m < files.len(),
        i != m,
        down_of(files, i) == Some(p),
        down_of(files, m) == Some(p),
    ensures
        !exists|order: Seq<int>| chain_order(files, order),
{
    if exists|order: Seq<int>| chain_order(files, order) {
        let order = choose|order: Seq<int>| chain_order(files, order);
        let ti = lemma_position(files, order, i);
        let tm = lemma_position(files, order, m);
        assert(ti > 0);
        assert(tm > 0);
        assert(rev_of(files, order[ti - 1]) == p);
        assert(rev_of(files, order[tm - 1]) == p);
        assert(order[ti - 1] == order[tm - 1]);
        assert(ti - 1 == tm - 1);
    }
}

/// A non-empty set of files where every file has a down revision has no chain.
proof fn lemma_no_base(files: Seq<MigrationFile>)
    requires
        files.len() > 0,
        forall|k: int| 0 <= k < files.len() ==> down_of(files, k) is Some,
    ensures
        !exists|order: Seq<int>| chain_order(files, order),
{
    if exists|order: Seq<int>| chain_order(files, order) {
        let order = choose|order: Seq<int>| chain_order(files, order);
        assert(0 <= order[0] < files.len());
    }
}

/// In a chain, the file after position `t` is a file following `order[t]`.
proof fn lemma_walk_follows(
    files: Seq<MigrationFile>,
    order: Seq<int>,
    walk: Seq<int>,
)
    requires
        revisions_unique(files),
        chain_order(files, order),
        walk.len() > 0,
        walk.len() <= order.len(),
        down_of(files, walk[0]) is None,
        forall|t: int| 0 <= t < walk.len() ==> 0 <= #[trigger] walk[t] < files.len(),
        forall|t: int|
            0 < t < walk.len() ==> down_of(files, #[trigger] walk[t]) == Some(
                rev_of(files, walk[t - 1]),
            ),
        forall|a: int, b: int|
            0 <= a < files.len() && 0 <= b < files.len() && a != b && down_of(files, a) is Some
                && down_of(files, a) == down_of(files, b) ==> false,
    ensures
        forall|t: int| 0 <= t < walk.len() ==> walk[t] == #[trigger] order[t],
    decreases walk.len(),
{
    if walk.len() == 1 {
        let t0 = lemma_position(files, order, walk[0]);
        if t0 > 0 {
            assert(down_of(files, order[t0]) is Some);
        }
    } else {
        let w = walk.drop_last();
        lemma_walk_follows(files, order, w);
        let last = walk.len() - 1;
        assert(w[last - 1] == order[last - 1]);
        assert(walk[last - 1] == order[last - 1]);
        // both walk[last] and order[last] follow order[last - 1]
        assert(down_of(files, order[last]) == Some(rev_of(files, order[last - 1])));
        assert(down_of(files, walk[last]) == Some(rev_of(files, walk[last - 1])));
        if walk[last] != order[last] {
            assert(0 <= order[last] < files.len());
        }
    }
}

/// Files with unique revisions have at most one chain order: the base is the
/// one file without a down revision, and each next file is the one that follows
/// the previous, so the order comes from the headers alone.
pub proof fn lemma_chain_order_unique(files: Seq<MigrationFile>, o1: Seq<int>, o2: Seq<int>)
    requires
        revisions_unique(files),
        chain_order(files, o1),
        chain_order(files, o2),
    ensures
        o1 == o2,
{
    assert forall|a: int, b: int|
        0 <= a < files.len() && 0 <= b < files.len() && a != b && down_of(files, a) is Some
            && down_of(files, a) == down_of(files, b) implies false by {
        lemma_branch(files, a, b, down_of(files, a).unwrap());
    }
    if o2.len() > 0 {
        lemma_walk_follows(files, o1, o2);
    }
    assert(o1 =~= o2);
}

/// Whether `out` is the chain of `files`: the files taken in a chain order.
pub open spec fn chain_of(out: Seq<MigrationFile>, files: Seq<MigrationFile>) -> bool {
    exists|order: Seq<int>| chain_order(files, order) && taken_in_order(out, files, order)
}

/// The chain does not depend on the order the files are listed in (say, the
/// order a directory is read in): the chain of any rearrangement of the same
/// files is the same sequence of migrations.
pub proof fn lemma_chain_ignores_listing_order(
    files1: Seq<MigrationFile>,
    files2: Seq<MigrationFile>,
    perm: Seq<int>,
    out1: Seq<MigrationFile>,
    out2: Seq<MigrationFile>,
)
    requires
        files1.len() == files2.len(),
        perm.len() == files2.len(),
        perm.no_duplicates(),
        forall|i: int| 0 <= i < perm.len() ==> 0 <= #[trigger] perm[i] < files1.len(),
        forall|i: int| 0 <= i < perm.len() ==> #[trigger] files2[i] == files1[perm[i]],
        revisions_unique(files1),
        chain_of(out1, files1),
        chain_of(out2, files2),
    ensures
        out1 == out2,
{
    let o1 = choose|order: Seq<int>| chain_order(files1, order) && taken_in_order(out1, files1, order);
    let o2 = choose|order: Seq<int>| chain_order(files2, order) && taken_in_order(out2, files2, order);
    let o = o2.map_values(|k: int| perm[k]);
    assert(o.no_duplicates()) by {
        assert forall|a: int, b: int| 0 <= a < o.len() && 0 <= b < o.len() && a != b implies o[a]
            != o[b] by {
            assert(o2[a] != o2[b]);
            assert(0 <= o2[a] < perm.len() && 0 <= o2[b] < perm.len());
        }
    }
    assert forall|t: int| 0 <= t < o.len() implies 0 <= #[trigger] o[t] < files1.len() by {
        assert(0 <= o2[t] < perm.len());
    }
    if o.len() > 0 {
        assert(down_of(files1, o[0]) == down_of(files2, o2[0]));
    }
    assert forall|t: int| 0 < t < o.len() implies down_of(files1, #[trigger] o[t]) == Some(
        rev_of(files1, o[t - 1]),
    ) by {
        assert(down_of(files1, o[t]) == down_of(files2, o2[t]));
        assert(rev_of(files1, o[t - 1]) == rev_of(files2, o2[t - 1]));
    }
    assert(chain_order(files1, o));
    lemma_chain_order_unique(files1, o1, o);
    assert forall|t: int| 0 <= t < out1.len() implies out1[t] == out2[t] by {
        assert(out2[t] == files2[o2[t]]);
        assert(files2[o2[t]] == files1[o[t]]);
    }
    assert(out1 =~= out2);
}

/// Whether two optional strings hold the same text.
fn same_opt(a: &Option<String>, b: &Option<String>) -> (r: bool)
    ensures
        r == (opt_view(*a) == opt_view(*b)),
{
    match (a, b) {
        (Some(x), Some(y)) => *x == *y,
        (None, None) => true,
        _ => false,
    }
}

/// A copy of a migration file.
pub fn clone_file(f: &MigrationFile) -> (c: MigrationFile)
    ensures
        c == *f,
{
    MigrationFile {
        revision: f.revision.clone(),
        down_revision: match &f.down_revision {
            Some(d) => Some(d.clone()),
            None => None,
        },
        name: f.name.clone(),
        up_sql: f.up_sql.clone(),
        down_sql: match &f.down_sql {
            Some(d) => Some(d.clone()),
            None => None,
        },
        transactional: f.transactional,
        checksum: f.checksum.clone(),
    }
}

/// Whether `message` names a problem that `files` have, as `build_chain` reports
/// it: a revision two files share, a second base, a down revision no file has, two
/// files following one parent, no base at all, or files not connected to the base.
pub open spec fn chain_problem(files: Seq<MigrationFile>, message: Seq<char>) -> bool {
    ||| exists|i: int, j: int|
        0 <= i < files.len() && 0 <= j < files.len() && i != j && #[trigger] rev_of(files, i)
            == #[trigger] rev_of(files, j) && message == "two migrations share the revision `"@
            + rev_of(files, i) + seq!['`']
    ||| (exists|i: int, j: int|
        0 <= i < files.len() && 0 <= j < files.len() && i != j && #[trigger] down_of(files, i) is None
            && #[trigger] down_of(files, j) is None) && message
        == "more than one base migration (with no `down_revision`)"@
    ||| exists|i: int|
        0 <= i < files.len() && (#[trigger] down_of(files, i)) is Some && (forall|x: int|
            0 <= x < files.len() ==> rev_of(files, x) != down_of(files, i).unwrap()) && message
            == "migration `"@ + rev_of(files, i) + "` has down_revision `"@ + down_of(files, i).unwrap()
            + "`, which does not exist"@
    ||| exists|i: int, j: int|
        0 <= i < files.len() && 0 <= j < files.len() && i != j && (#[trigger] down_of(files, i)) is Some
            && #[trigger] down_of(files, j) == down_of(files, i) && message
            == "branching not supported yet: two migrations follow `"@ + down_of(files, i).unwrap()
            + seq!['`']
    ||| (forall|i: int| 0 <= i < files.len() ==> (#[trigger] down_of(files, i)) is Some) && message
        == "no base migration (every migration has a `down_revision`)"@
    ||| message == "the migrations do not form a single connected chain"@
}

/// Validates that the migrations form a single linear chain and returns them
/// ordered base to head.
///
/// Succeeds exactly when the revisions are unique and the files can be ordered
/// so that the first has no down revision and each other one follows its
/// predecessor; every failure is a configuration error naming the first problem
/// found (a shared revision, a second base, a missing parent, a branch, no base,
/// or files not connected to the base).
pub fn build_chain(files: Vec<MigrationFile>) -> (r: Result<Vec<MigrationFile>, OrmError>)
    ensures
        r is Ok <==> forms_chain(files@),
        r matches Ok(out) ==> chain_of(out@, files@),
        r matches Err(e) ==> e.spec_kind() == ErrorKind::Configuration && chain_problem(
            files@,
            e.spec_message(),
        ),
{
    let n = files.len();
    if n == 0 {
        let out: Vec<MigrationFile> = Vec::new();
        assert(chain_order(files@, Seq::<int>::empty()));
        assert(taken_in_order(out@, files@, Seq::<int>::empty()));
        return Ok(out);
    }
    // 1. Unique revisions.
    let mut i: usize = 0;
    while i < n
        invariant
            n == files@.len(),
            i <= n,
            forall|a: int, b: int| 0 <= a < i && 0 <= b < i && a != b ==> rev_of(files@, a) != rev_of(files@, b),
        decreases n - i,
    {
        let mut j: usize = 0;
        while j < i
            invariant
                n == files@.len(),
                j <= i < n,
                forall|b: int| 0 <= b < j ==> rev_of(files@, b) != rev_of(files@, i as int),
            decreases i - j,
        {
            if files[j].revision == files[i].revision {
                let mut m = owned("two migrations share the revision `");
                push_str(&mut m, files[i].revision.as_str());
                push_char(&mut m, '`');
                assert(!revisions_unique(files@)) by {
                    assert(rev_of(files@, j as int) == rev_of(files@, i as int));
                }
                proof {
                    assert(m@ =~= "two migrations share the revision `"@ + rev_of(files@, i as int) + seq!['`']);
                    assert(rev_of(files@, i as int) == rev_of(files@, j as int));
                    assert(chain_problem(files@, m@));
                }
                return Err(OrmError::configuration(m.as_str()));
            }
            j = j + 1;
        }
        i = i + 1;
    }
    assert(revisions_unique(files@));
    // 2. One base, existing parents, no branches.
    let mut base: Option<usize> = None;
    let mut i: usize = 0;
    while i < n
        invariant
            n == files@.len(),
            i <= n,
            revisions_unique(files@),
            base matches Some(b) ==> b < i && down_of(files@, b as int) is None,
            base is None ==> forall|k: int| 0 <= k < i ==> down_of(files@, k) is Some,
            forall|k: int| 0 <= k < i && down_of(files@, k) is None ==> base == Some(k as usize),
            forall|a: int, b: int|
                0 <= a < i && 0 <= b < i && a != b && down_of(files@, a) is Some && down_of(files@, a)
                    == down_of(files@, b) ==> false,
        decreases n - i,
    {
        match &files[i].down_revision {
            None => {
                if let Some(b) = base {
                    proof {
                        lemma_two_bases(files@, b as int, i as int);
                    }
                    return Err(OrmError::configuration(
                        "more than one base migration (with no `down_revision`)",
                    ));
                }
                base = Some(i);
            },
            Some(parent) => {
                let mut k: usize = 0;
                let mut found = false;
                while k < n
                    invariant
                        n == files@.len(),
                        k <= n,
                        !found ==> forall|x: int| 0 <= x < k ==> rev_of(files@, x) != parent@,
                        found ==> exists|x: int| 0 <= x < n && rev_of(files@, x) == parent@,
                    decreases n - k,
                {
                    if files[k].revision == *parent {
                        assert(rev_of(files@, k as int) == parent@);
                        found = true;
                    }
                    k = k + 1;
                }
                if !found {
                    proof {
                        lemma_dangling(files@, i as int, parent@);
                    }
                    let mut m = owned("migration `");
                    push_str(&mut m, files[i].revision.as_str());
                    push_str(&mut m, "` has down_revision `");
                    push_str(&mut m, parent.as_str());
                    push_str(&mut m, "`, which does not exist");
                    return Err(OrmError::configuration(m.as_str()));
                }
                let mut m2: usize = 0;
                while m2 < i
                    invariant
                        n == files@.len(),
                        m2 <= i < n,
                        revisions_unique(files@),
                        down_of(files@, i as int) == Some(parent@),
                        forall|x: int| 0 <= x < m2 ==> down_of(files@, x) != Some(parent@),
                    decreases i - m2,
                {
                    if same_opt(&files[m2].down_revision, &files[i].down_revision) {
                        proof {
                            lemma_branch(files@, i as int, m2 as int, parent@);
                        }
                        let mut m = owned("branching not supported yet: two migrations follow `");
                        push_str(&mut m, parent.as_str());
                        push_char(&mut m, '`');
                        proof {
                            assert(down_of(files@, m2 as int) == down_of(files@, i as int));
                            assert(m@ =~= "branching not supported yet: two migrations follow `"@
                                + down_of(files@, i as int).unwrap() + seq!['`']);
                            assert(chain_problem(files@, m@));
                        }
                        return Err(OrmError::configuration(m.as_str()));
                    }
                    m2 = m2 + 1;
                }
            },
        }
        i = i + 1;
    }
    let base = match base {
        Some(b) => b,
        None => {
            proof {
                lemma_no_base(files@);
            }
            return Err(OrmError::configuration(
                "no base migration (every migration has a `down_revision`)",
            ));
        },
    };
    // 3. Walk the chain from the base.
    let mut ordered: Vec<usize> = Vec::new();
    ordered.push(base);
    let mut current = base;
    let mut done = false;
    while !done && ordered.len() < n
        invariant
            n == files@.len(),
            revisions_unique(files@),
            1 <= ordered@.len() <= n,
            current == ordered@.last(),
            ordered@[0] == base,
            down_of(files@, base as int) is None,
            forall|k: int| 0 <= k < n && down_of(files@, k) is None ==> k == base,
            forall|a: int, b: int|
                0 <= a < n && 0 <= b < n && a != b && down_of(files@, a) is Some && down_of(files@, a)
                    == down_of(files@, b) ==> false,
            forall|t: int| 0 <= t < ordered@.len() ==> #[trigger] ordered@[t] < n,
            forall|s: int, t: int| 0 <= s < t < ordered@.len() ==> ordered@[s] != ordered@[t],
            forall|t: int|
                0 < t < ordered@.len() ==> down_of(files@, #[trigger] ordered@[t] as int) == Some(
                    rev_of(files@, ordered@[t - 1] as int),
                ),
            done ==> forall|k: int| 0 <= k < n ==> down_of(files@, k) != Some(rev_of(files@, current as int)),
        decreases n - ordered@.len() + (if done { 0int } else { 1int }),
    {
        let mut c: usize = 0;
        let mut child: Option<usize> = None;
        while c < n
            invariant
                n == files@.len(),
                current < n,
                c <= n,
                child is None ==> forall|k: int| 0 <= k < c ==> down_of(files@, k) != Some(rev_of(files@, current as int)),
                child matches Some(x) ==> x < n && down_of(files@, x as int) == Some(rev_of(files@, current as int)),
            decreases n - c,
        {
            if child.is_none() {
                match &files[c].down_revision {
                    Some(p) => {
                        if *p == files[current].revision {
                            child = Some(c);
                        }
                    },
                    None => {},
                }
            }
            c = c + 1;
        }
        match child {
            None => {
                done = true;
            },
            Some(x) => {
                proof {
                    // x is new: it cannot already be on the path.
                    assert forall|t: int| 0 <= t < ordered@.len() implies ordered@[t] != x by {
                        if ordered@[t] == x {
                            if t == 0 {
                                assert(down_of(files@, x as int) is Some);
                            } else {
                                assert(rev_of(files@, ordered@[t - 1] as int) == rev_of(files@, current as int));
                                assert(ordered@[t - 1] == current);
                                assert(t - 1 == ordered@.len() - 1);
                            }
                        }
                    }
                }
                ordered.push(x);
                current = x;
            },
        }
    }
    if ordered.len() != n {
        proof {
            if exists|order: Seq<int>| chain_order(files@, order) {
                let order = choose|order: Seq<int>| chain_order(files@, order);
                let walk = ordered@.map_values(|u: usize| u as int);
                lemma_walk_follows(files@, order, walk);
                let last = walk.len() - 1;
                assert(walk[last] == order[last]);
                assert(down_of(files@, order[last + 1]) == Some(rev_of(files@, order[last])));
                assert(0 <= order[last + 1] < n);
            }
        }
        return Err(OrmError::configuration("the migrations do not form a single connected chain"));
    }
    // 4. Take the files in chain order.
    let ghost order = ordered@.map_values(|u: usize| u as int);
    assert(chain_order(files@, order)) by {
        assert(order.no_duplicates()) by {
            assert forall|s: int, t: int| 0 <= s < order.len() && 0 <= t < order.len() && s != t implies order[s] != order[t] by {
                if s < t {
                } else {
                }
            }
        }
    }
    let mut out: Vec<MigrationFile> = Vec::new();
    let mut t: usize = 0;
    while t < n
        invariant
            n == files@.len(),
            ordered@.len() == n,
            t <= n,
            order == ordered@.map_values(|u: usize| u as int),
            forall|x: int| 0 <= x < ordered@.len() ==> #[trigger] ordered@[x] < n,
            chain_order(files@, order),
            out@.len() == t,
            forall|s: int| 0 <= s < t ==> #[trigger] out@[s] == files@[order[s]],
        decreases n - t,
    {
        let f = clone_file(&files[ordered[t]]);
        out.push(f);
        t = t + 1;
    }
    assert(taken_in_order(out@, files@, order));
    Ok(out)
}


/// The revisions of the chain, in order.
pub open spec fn chain_revisions(chain: Seq<MigrationFile>) -> Seq<Seq<char>> {
    chain.map_values(|f: MigrationFile| f.revision@)
}

/// The revisions of the chain that start with `prefix`, in order.
pub open spec fn matching_revisions(chain: Seq<MigrationFile>, prefix: Seq<char>) -> Seq<
    Seq<char>,
> {
    chain_revisions(chain).filter(|r: Seq<char>| has_prefix(r, prefix))
}

/// The message when no revision matches `prefix`.
pub open spec fn no_match_message(prefix: Seq<char>) -> Seq<char> {
    "no migration matches revision `"@ + prefix + seq!['`']
}

/// The message when several revisions match `prefix`.
pub open spec fn ambiguous_message(prefix: Seq<char>) -> Seq<char> {
    "revision `"@ + prefix + "` is ambiguous; give more characters"@
}

/// Resolves a revision prefix to a single full revision within the chain.
pub fn resolve(chain: &[MigrationFile], prefix: &str) -> (r: Result<String, OrmError>)
    ensures
        matching_revisions(chain@, prefix@).len() == 1 ==> (r matches Ok(rev) && rev@
            == matching_revisions(chain@, prefix@)[0]),
        matching_revisions(chain@, prefix@).len() == 0 ==> (r matches Err(e) && e.spec_kind()
            == ErrorKind::Configuration && e.spec_message() == no_match_message(prefix@)),
        matching_revisions(chain@, prefix@).len() > 1 ==> (r matches Err(e) && e.spec_kind()
            == ErrorKind::Configuration && e.spec_message() == ambiguous_message(prefix@)),
{
    let mut count: usize = 0;
    let mut first: Option<usize> = None;
    let mut i: usize = 0;
    while i < chain.len()
        invariant
            i <= chain@.len(),
            count == matching_revisions(chain@.take(i as int), prefix@).len(),
            count <= i,
            count == 0 <==> first is None,
            first matches Some(k) ==> k < i && matching_revisions(chain@.take(i as int), prefix@)[0]
                == chain@[k as int].revision@,
        decreases chain@.len() - i,
    {
        proof {
            reveal_with_fuel(Seq::<_>::filter, 1);
            assert(chain_revisions(chain@.take(i + 1)).drop_last() == chain_revisions(
                chain@.take(i as int),
            ));
            assert(chain_revisions(chain@.take(i + 1)).last() == chain@[i as int].revision@);
        }
        if starts_with(chain[i].revision.as_str(), prefix) {
            if count == 0 {
                first = Some(i);
            }
            count = count + 1;
        }
        i = i + 1;
    }
    assert(chain@.take(i as int) == chain@);
    if count == 1 {
        match first {
            Some(k) => Ok(chain[k].revision.clone()),
            None => Err(OrmError::configuration("")),
        }
    } else if count == 0 {
        let mut m = owned("no migration matches revision `");
        push_str(&mut m, prefix);
        push_char(&mut m, '`');
        Err(OrmError::configuration(m.as_str()))
    } else {
        let mut m = owned("revision `");
        push_str(&mut m, prefix);
        push_str(&mut m, "` is ambiguous; give more characters");
        Err(OrmError::configuration(m.as_str()))
    }
}

/// The upper-case form of `s` as `str::to_uppercase` computes it (full Unicode
/// case mapping).
pub uninterp spec fn uppercase(s: Seq<char>) -> Seq<char>;

/// `str::to_uppercase`: the Unicode upper-case mapping of `s`.
#[verifier::external_body]
pub(crate) fn to_uppercase(s: &str) -> (r: String)
    ensures
        r@ == uppercase(s@),
{
    s.to_uppercase()
}

/// Whether SQL text holds a destructive statement: `DROP TABLE` or `DROP COLUMN`
/// in its upper-cased text.
pub open spec fn destructive(sql: Seq<char>) -> bool {
    contains(uppercase(sql), "DROP TABLE"@) || contains(uppercase(sql), "DROP COLUMN"@)
}

/// Returns `true` if `sql` contains a destructive statement (`DROP TABLE` or
/// `DROP COLUMN`), matched case-insensitively against the raw text. It does not
/// catch every data-destroying statement (a `TRUNCATE` or a hand-written
/// `DELETE`, say).
pub fn is_destructive(sql: &str) -> (b: bool)
    ensures
        b == destructive(sql@),
{
    let upper = to_uppercase(sql);
    let hay = chars_of(upper.as_str());
    let a = chars_of("DROP TABLE");
    let b = chars_of("DROP COLUMN");
    contains_chars(&hay, &a) || contains_chars(&hay, &b)
}

/// Returns the head revision of a set of migration files — the last migration of
/// their chain — or `None` when there are none.
pub fn head_revision(files: Vec<MigrationFile>) -> (r: Result<Option<String>, OrmError>)
    ensures
        r is Ok <==> forms_chain(files@),
        r matches Ok(h) ==> (files@.len() == 0 <==> h is None),
        r matches Ok(h) ==> (h matches Some(rev) ==> exists|order: Seq<int>|
            chain_order(files@, order) && rev@ == rev_of(files@, order.last())),
        r matches Err(e) ==> e.spec_kind() == ErrorKind::Configuration,
{
    let chain = build_chain(files)?;
    let n = chain.len();
    if n == 0 {
        Ok(None)
    } else {
        let ghost order = choose|order: Seq<int>|
            chain_order(files@, order) && taken_in_order(chain@, files@, order);
        assert(chain@[n - 1] == files@[order.last()]);
        Ok(Some(chain[n - 1].revision.clone()))
    }
}

} // verus!
