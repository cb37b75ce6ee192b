//! The command-line tool's logic: target parsing, scaffolding, styling, and the
//! text each command prints.

pub mod args;
pub mod output;
pub mod settings;
pub mod scaffold;
pub mod style;
pub mod sym;

use vstd::prelude::*;

pub use args::{ArgError, ArgErrorKind, Cli, GlobalArgs, MigrateCommand, TopCommand};

use crate::error::{ErrorKind, OrmError};
use crate::migration::files::{matching_revisions, MigrationFile};
use crate::migration::runner::{applied_between, position_of, AppliedRecord, FileMigrator, FileStatus};
use crate::text::{chars_of, has_prefix, owned, starts_with, string_of_range};

verus! {

/// Where `up` should stop.
#[derive(Debug, PartialEq, Eq)]
pub enum UpTarget {
    /// Apply all pending migrations.
    Head,
    /// Apply through the given revision (or prefix).
    To(String),
}

/// What `down` should revert.
#[derive(Debug, PartialEq, Eq)]
pub enum DownTarget {
    /// Revert the given number of migrations.
    Steps(usize),
    /// Revert every applied migration.
    Base,
    /// Revert everything after the given revision (or prefix).
    To(String),
}

/// Whether `c` is an ASCII decimal digit.
pub open spec fn is_digit(c: char) -> bool {
    '0' <= c && c <= '9'
}

/// The value of a string of decimal digits.
pub open spec fn digits_value(s: Seq<char>) -> nat
    decreases s.len(),
{
    if s.len() == 0 {
        0
    } else {
        digits_value(s.drop_last()) * 10 + ((s.last() as u32) - ('0' as u32)) as nat
    }
}

/// The digits of an unsigned integer: `s` without an optional leading `+`.
pub open spec fn usize_digits(s: Seq<char>) -> Seq<char> {
    if s.len() > 0 && s[0] == '+' {
        s.drop_first()
    } else {
        s
    }
}

/// The unsigned integer `s` spells, as `usize::from_str` reads it: an optional
/// leading `+` followed by one or more decimal digits, at most `usize::MAX`.
pub open spec fn parse_usize_text(s: Seq<char>) -> Option<nat> {
    let body = usize_digits(s);
    if body.len() == 0 || exists|i: int| 0 <= i < body.len() && !is_digit(#[trigger] body[i]) {
        None
    } else if digits_value(body) > usize::MAX {
        None
    } else {
        Some(digits_value(body))
    }
}

proof fn lemma_digits_prefix_le(s: Seq<char>, i: int)
    requires
        0 <= i <= s.len(),
        forall|k: int| 0 <= k < s.len() ==> is_digit(#[trigger] s[k]),
    ensures
        digits_value(s.take(i)) <= digits_value(s),
    decreases s.len() - i,
{
    if i < s.len() {
        lemma_digits_prefix_le(s, i + 1);
        assert(s.take(i + 1).drop_last() == s.take(i));
    }
    else {
        assert(s.take(i) == s);
    }
}

/// Parses an unsigned integer the way `usize::from_str` does.
pub fn parse_usize(s: &str) -> (r: Option<usize>)
    ensures
        r.is_some() == parse_usize_text(s@).is_some(),
        r matches Some(n) ==> n as nat == parse_usize_text(s@).unwrap(),
{
    let chars = chars_of(s);
    let start: usize = if chars.len() > 0 && chars[0] == '+' { 1 } else { 0 };
    let ghost body = chars@.subrange(start as int, chars@.len() as int);
    proof {
        if start == 1 {
            assert(body == chars@.drop_first());
        } else {
            assert(body == chars@);
        }
    }
    if start == chars.len() {
        return None;
    }
    let mut i = start;
    while i < chars.len()
        invariant
            start <= i <= chars@.len(),
            chars@ == s@,
            body == usize_digits(s@),
            body == chars@.subrange(start as int, chars@.len() as int),
            forall|k: int| start <= k < i ==> is_digit(#[trigger] chars@[k]),
        decreases chars@.len() - i,
    {
        if !('0' <= chars[i] && chars[i] <= '9') {
            assert(!is_digit(body[i - start]));
            assert(exists|k: int| 0 <= k < body.len() && !is_digit(#[trigger] body[k]));
            return None;
        }
        i = i + 1;
    }
    assert forall|k: int| 0 <= k < body.len() implies is_digit(#[trigger] body[k]) by {
        assert(body[k] == chars@[start + k]);
    }
    let mut value: usize = 0;
    let mut j = start;
    while j < chars.len()
        invariant
            start <= j <= chars@.len(),
            chars@ == s@,
            body == usize_digits(s@),
            body == chars@.subrange(start as int, chars@.len() as int),
            forall|k: int| 0 <= k < body.len() ==> is_digit(#[trigger] body[k]),
            value as nat == digits_value(body.take(j - start)),
        decreases chars@.len() - j,
    {
        assert(body[j - start] == chars@[j as int]);
        assert(is_digit(body[j - start]));
        let d = (chars[j] as u32 - '0' as u32) as usize;
        assert(body.take(j - start + 1).drop_last() == body.take(j - start));
        if value > (usize::MAX - d) / 10 {
            proof {
                lemma_digits_prefix_le(body, j - start + 1);
                assert(digits_value(body.take(j - start + 1)) > usize::MAX) by (nonlinear_arith)
                    requires
                        value > (usize::MAX - d) / 10,
                        digits_value(body.take(j - start + 1)) == value * 10 + d,
                        d <= 9,
                ;
            }
            return None;
        }
        proof {
            assert(value * 10 + d <= usize::MAX) by (nonlinear_arith)
                requires
                    value <= (usize::MAX - d) / 10,
                    d <= 9,
            ;
        }
        value = value * 10 + d;
        j = j + 1;
    }
    assert(body.take(j - start) == body);
    Some(value)
}

/// The `up` target an argument denotes: everything for none or `head`, else the
/// given revision.
pub open spec fn up_target_of(arg: Option<Seq<char>>) -> Option<Seq<char>> {
    match arg {
        None => None,
        Some(a) => if a == "head"@ {
            None
        } else {
            Some(a)
        },
    }
}

/// Parses an `up` target argument.
pub fn parse_up_target(arg: Option<&str>) -> (t: UpTarget)
    ensures
        up_target_of(match arg { Some(a) => Some(a@), None => None }) matches Some(r) ==> (t
            matches UpTarget::To(s) && s@ == r),
        up_target_of(match arg { Some(a) => Some(a@), None => None }) is None ==> t
            == UpTarget::Head,
{
    match arg {
        None => UpTarget::Head,
        Some(revision) => {
            let chars = chars_of(revision);
            let head = chars_of("head");
            proof {
                reveal_strlit("head");
            }
            if chars.len() == 4 && chars[0] == 'h' && chars[1] == 'e' && chars[2] == 'a'
                && chars[3] == 'd' {
                assert(revision@ == "head"@);
                UpTarget::Head
            } else {
                assert(revision@ != "head"@) by {
                    if revision@ == "head"@ {
                        assert(chars@ == head@);
                    }
                }
                UpTarget::To(owned(revision))
            }
        },
    }
}

/// Parses a `down` target argument: one step for none, everything for `base`, a
/// step count for a number, else a revision.
pub fn parse_down_target(arg: Option<&str>) -> (t: DownTarget)
    ensures
        arg is None ==> t == DownTarget::Steps(1),
        arg matches Some(a) ==> (a@ == "base"@ ==> t == DownTarget::Base),
        arg matches Some(a) ==> (a@ != "base"@ && parse_usize_text(a@) is Some ==> t
            == DownTarget::Steps(parse_usize_text(a@).unwrap() as usize)),
        arg matches Some(a) ==> (a@ != "base"@ && parse_usize_text(a@) is None ==> (t matches DownTarget::To(
            s,
        ) && s@ == a@)),
{
    match arg {
        None => DownTarget::Steps(1),
        Some(other) => {
            let chars = chars_of(other);
            let base = chars_of("base");
            proof {
                reveal_strlit("base");
            }
            if chars.len() == 4 && chars[0] == 'b' && chars[1] == 'a' && chars[2] == 's'
                && chars[3] == 'e' {
                assert(other@ == "base"@);
                DownTarget::Base
            } else {
                assert(other@ != "base"@) by {
                    if other@ == "base"@ {
                        assert(chars@ == base@);
                    }
                }
                match parse_usize(other) {
                    Some(steps) => DownTarget::Steps(steps),
                    None => DownTarget::To(owned(other)),
                }
            }
        },
    }
}


/// The revision and name of each applied migration, in chain order.
pub open spec fn applied_pairs(statuses: Seq<FileStatus>) -> Seq<(Seq<char>, Seq<char>)>
    decreases statuses.len(),
{
    if statuses.len() == 0 {
        seq![]
    } else {
        let rest = applied_pairs(statuses.drop_last());
        if statuses.last().applied {
            rest.push((statuses.last().revision@, statuses.last().name@))
        } else {
            rest
        }
    }
}

/// The first position at or after `i` whose revision starts with `prefix`.
pub open spec fn first_prefixed(pairs: Seq<(Seq<char>, Seq<char>)>, prefix: Seq<char>, i: int) -> Option<
    int,
>
    decreases pairs.len() - i,
{
    if i < 0 || i >= pairs.len() {
        None
    } else if has_prefix(pairs[i].0, prefix) {
        Some(i)
    } else {
        first_prefixed(pairs, prefix, i + 1)
    }
}

/// What a `down` to `target` reverts of the applied migrations `applied`, newest
/// first: the last `n` for a step count, all of them for `base`, and those after
/// the first whose revision starts with the given prefix (none when no applied
/// revision does).
pub open spec fn down_preview_pairs(applied: Seq<(Seq<char>, Seq<char>)>, target: DownTarget) -> Seq<
    (Seq<char>, Seq<char>),
> {
    match target {
        DownTarget::Steps(n) => applied.skip(
            if n <= applied.len() {
                applied.len() - n
            } else {
                0
            },
        ).reverse(),
        DownTarget::Base => applied.reverse(),
        DownTarget::To(p) => match first_prefixed(applied, p@, 0) {
            Some(i) => applied.skip(i + 1).reverse(),
            None => seq![],
        },
    }
}

/// Pairs of strings by their characters.
pub open spec fn pairs_view(v: Seq<(String, String)>) -> Seq<(Seq<char>, Seq<char>)> {
    v.map_values(|x: (String, String)| (x.0@, x.1@))
}

fn find_prefixed(applied: &Vec<(String, String)>, prefix: &str) -> (r: Option<usize>)
    ensures
        match first_prefixed(pairs_view(applied@), prefix@, 0) {
            Some(i) => r is Some && r.unwrap() as int == i,
            None => r is None,
        },
        r matches Some(i) ==> i < applied@.len(),
{
    let ghost all = pairs_view(applied@);
    let mut j: usize = 0;
    while j < applied.len()
        invariant
            j <= applied@.len(),
            all == pairs_view(applied@),
            first_prefixed(all, prefix@, 0) == first_prefixed(all, prefix@, j as int),
        decreases applied@.len() - j,
    {
        assert(all[j as int].0 == applied@[j as int].0@);
        if starts_with(applied[j].0.as_str(), prefix) {
            return Some(j);
        }
        j = j + 1;
    }
    None
}

/// The revision and name of each migration a `down` to `target` would revert,
/// newest first, from the migrations' applied states.
pub fn down_preview(statuses: &Vec<FileStatus>, target: &DownTarget) -> (r: Vec<(String, String)>)
    ensures
        pairs_view(r@) == down_preview_pairs(applied_pairs(statuses@), *target),
{
    let mut applied: Vec<(String, String)> = Vec::new();
    let mut i: usize = 0;
    while i < statuses.len()
        invariant
            i <= statuses@.len(),
            pairs_view(applied@) == applied_pairs(statuses@.take(i as int)),
        decreases statuses@.len() - i,
    {
        assert(statuses@.take(i + 1).drop_last() == statuses@.take(i as int));
        if statuses[i].applied {
            let pair = (statuses[i].revision.clone(), statuses[i].name.clone());
            applied.push(pair);
        }
        assert(pairs_view(applied@) =~= applied_pairs(statuses@.take(i + 1)));
        i = i + 1;
    }
    assert(statuses@.take(i as int) == statuses@);
    let ghost all = pairs_view(applied@);
    let n = applied.len();
    assert(all.len() == n);
    let lo: usize = match target {
        DownTarget::Steps(k) => {
            let lo = if *k <= n {
                n - *k
            } else {
                0
            };
            assert(down_preview_pairs(all, *target) == all.skip(lo as int).reverse());
            lo
        },
        DownTarget::Base => {
            assert(all.skip(0) == all);
            assert(down_preview_pairs(all, *target) == all.skip(0).reverse());
            0
        },
        DownTarget::To(prefix) => match find_prefixed(&applied, prefix.as_str()) {
            Some(j) => {
                assert(down_preview_pairs(all, *target) == all.skip(j + 1).reverse());
                j + 1
            },
            None => {
                return Vec::new();
            },
        },
    };
    let mut out: Vec<(String, String)> = Vec::new();
    let mut t: usize = 0;
    while t < n - lo
        invariant
            lo <= n == applied@.len(),
            all == pairs_view(applied@),
            t <= n - lo,
            pairs_view(out@) == all.skip(lo as int).reverse().take(t as int),
        decreases n - lo - t,
    {
        let k = n - 1 - t;
        let pair = (applied[k].0.clone(), applied[k].1.clone());
        let ghost before = out@;
        out.push(pair);
        assert(all.skip(lo as int).reverse()[t as int] == all[k as int]);
        assert(pairs_view(out@) == pairs_view(before).push(all[k as int]));
        assert(pairs_view(out@) =~= all.skip(lo as int).reverse().take(t + 1));
        t = t + 1;
    }
    assert(all.skip(lo as int).reverse().take(t as int) == all.skip(lo as int).reverse());
    out
}

/// How many of the most recent migrations a `down` to `target` reverts: the
/// given count, all of them for `base` (the count is not bounded), or those
/// applied after the migration whose revision starts with the given prefix
/// (which must name exactly one migration of the chain).
pub fn down_count(
    migrator: &FileMigrator,
    chain: &Vec<MigrationFile>,
    records: &Vec<AppliedRecord>,
    target: &DownTarget,
) -> (r: Result<usize, OrmError>)
    ensures
        target matches DownTarget::Steps(n) ==> (r matches Ok(c) && c == n),
        target is Base ==> (r matches Ok(c) && c == usize::MAX),
        target matches DownTarget::To(p) ==> (matching_revisions(chain@, p@).len() == 1 ==> (r matches Ok(c)
            && c == applied_between(
            chain@,
            records@,
            position_of(chain@, matching_revisions(chain@, p@)[0]) + 1,
            chain@.len() as int,
        ))),
        target matches DownTarget::To(p) ==> (matching_revisions(chain@, p@).len() != 1 ==> (r matches Err(e)
            && e.spec_kind() == ErrorKind::Configuration)),
{
    match target {
        DownTarget::Steps(n) => Ok(*n),
        DownTarget::Base => Ok(usize::MAX),
        DownTarget::To(revision) => migrator.down_to_count(chain, records, revision.as_str()),
    }
}

} // verus!
