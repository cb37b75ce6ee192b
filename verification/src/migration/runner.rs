//! The migration runner's decisions.
//!
//! A [`FileMigrator`] applies pending SQL-file migrations in chain order,
//! records each in a bookkeeping table, and reverts the most recent ones. The
//! decisions it takes (which migrations to apply or revert, what a changed
//! checksum means, what may not run) are made here from the chain and the
//! recorded rows; running the statements is the caller's part, which stops at
//! the first failure.

use vstd::prelude::*;

use crate::dialect::{Dialect, DialectKind};
use crate::error::{ErrorKind, OrmError};
use crate::text::{owned, push_str, str_eq};

use super::checksum::{fnv1a64, fnv_hash};
use super::files::{destructive, is_destructive, matching_revisions, resolve, MigrationFile};

verus! {

/// What to do when an already-applied migration's checksum no longer matches.
#[derive(Debug, Clone, Copy, PartialEq, Eq, Structural)]
pub enum OnMismatch {
    /// Print a warning and continue.
    Warn,
    /// Fail with an error.
    Error,
}

/// Whether a migration runs inside a transaction.
#[derive(Debug, Clone, Copy, PartialEq, Eq, Structural)]
pub enum MigrationTransaction {
    /// Run the migration inside a transaction (the default).
    Enabled,
    /// Run the migration outside any transaction.
    Disabled,
}

/// The applied state of one migration.
#[derive(Debug)]
pub struct MigrationStatus {
    /// The revision id.
    pub revision: String,
    /// The migration name.
    pub name: String,
    /// Whether the migration has been applied.
    pub applied: bool,
    /// For an applied migration, whether its stored checksum still matches;
    /// `None` when not applied.
    pub checksum_matches: Option<bool>,
}

/// A recorded migration, read back from the bookkeeping table.
#[derive(Debug)]
pub struct AppliedRecord {
    /// The revision id.
    pub revision: String,
    /// The revision it followed.
    pub down_revision: Option<String>,
    /// The checksum it was applied with.
    pub checksum: String,
}

/// A migration applied or reverted.
#[derive(Debug)]
pub struct Applied {
    /// The migration's revision id.
    pub revision: String,
    /// The migration's display name.
    pub name: String,
    /// How long it took.
    pub elapsed: std::time::Duration,
}

/// The applied state of one SQL-file migration.
#[derive(Debug)]
pub struct FileStatus {
    /// The revision id.
    pub revision: String,
    /// The display name.
    pub name: String,
    /// Whether the migration is applied.
    pub applied: bool,
    /// For an applied migration, whether its stored checksum still matches the
    /// file; `None` when not applied.
    pub checksum_matches: Option<bool>,
}

/// One decision of the runner: run a migration of the chain (by position),
/// report a warning, or stop with an error.
#[derive(Debug)]
pub enum Step {
    /// Apply (or revert) the migration at this position of the chain.
    Run(usize),
    /// Report this warning and go on.
    Warn(String),
    /// Stop with this error.
    Fail(OrmError),
}

/// The view of a step: `(0, position, "")`, `(1, 0, warning)` or
/// `(2, 0, error message)`; an error is always a configuration error.
pub open spec fn step_view(s: Step) -> (int, int, Seq<char>) {
    match s {
        Step::Run(i) => (0, i as int, seq![]),
        Step::Warn(w) => (1, 0, w@),
        Step::Fail(e) => (2, if e.spec_kind() == ErrorKind::Configuration { 0 } else { 1 }, e.spec_message()),
    }
}

/// The views of steps.
pub open spec fn steps_view(s: Seq<Step>) -> Seq<(int, int, Seq<char>)> {
    s.map_values(|x: Step| step_view(x))
}

/// The checksum recorded for `revision` (the last record of it), if any.
pub open spec fn stored_checksum(records: Seq<AppliedRecord>, revision: Seq<char>) -> Option<Seq<char>>
    decreases records.len(),
{
    if records.len() == 0 {
        None
    } else if records.last().revision@ == revision {
        Some(records.last().checksum@)
    } else {
        stored_checksum(records.drop_last(), revision)
    }
}

/// The message for a changed checksum.
pub open spec fn mismatch_message(revision: Seq<char>, stored: Seq<char>, computed: Seq<char>) -> Seq<char> {
    "migration checksum mismatch: `"@ + revision + "` was applied with checksum "@ + stored
        + " but its file now hashes to "@ + computed
}

/// The message for a destructive migration that is not allowed.
pub open spec fn destructive_message() -> Seq<char> {
    "cannot run destructive migration without --allow-destructive"@
}

/// The message for a migration without a down section.
pub open spec fn no_down_message(name: Seq<char>) -> Seq<char> {
    "migration `"@ + name + "` has no `-- migrate:down` section to revert"@
}

/// The steps of bringing the chain up from position `j`, stopping after the
/// target revision (when there is one) or at the first error.
pub open spec fn up_plan(
    fail_on_mismatch: bool,
    allow_destructive: bool,
    chain: Seq<MigrationFile>,
    records: Seq<AppliedRecord>,
    target: Option<Seq<char>>,
    j: int,
) -> Seq<(int, int, Seq<char>)>
    decreases chain.len() - j,
{
    if j < 0 || j >= chain.len() {
        seq![]
    } else {
        let f = chain[j];
        let is_target = target == Some(f.revision@);
        let rest = up_plan(fail_on_mismatch, allow_destructive, chain, records, target, j + 1);
        match stored_checksum(records, f.revision@) {
            Some(stored) => if stored != f.checksum@ {
                let m = mismatch_message(f.revision@, stored, f.checksum@);
                if fail_on_mismatch {
                    seq![(2, 0, m)]
                } else if is_target {
                    seq![(1, 0, m)]
                } else {
                    seq![(1int, 0int, m)] + rest
                }
            } else if is_target {
                seq![]
            } else {
                rest
            },
            None => if !allow_destructive && destructive(f.up_sql@) {
                seq![(2, 0, destructive_message())]
            } else if is_target {
                seq![(0, j, seq![])]
            } else {
                seq![(0int, j, Seq::<char>::empty())] + rest
            },
        }
    }
}

/// Whether every step of a plan runs a migration (no warning, no error).
pub open spec fn only_runs(plan: Seq<(int, int, Seq<char>)>) -> bool {
    forall|k: int| 0 <= k < plan.len() ==> (#[trigger] plan[k]).0 == 0
}

/// Whether a plan runs the migration at position `i`.
pub open spec fn runs(plan: Seq<(int, int, Seq<char>)>, i: int) -> bool {
    exists|k: int| 0 <= k < plan.len() && (#[trigger] plan[k]).0 == 0 && plan[k].1 == i
}

/// Whether `after` is what the bookkeeping table holds once `plan` ran on top of
/// `before`: each migration the plan runs is recorded with its file's checksum,
/// and every other migration of the chain keeps its record.
pub open spec fn recorded_after(
    chain: Seq<MigrationFile>,
    before: Seq<AppliedRecord>,
    after: Seq<AppliedRecord>,
    plan: Seq<(int, int, Seq<char>)>,
) -> bool {
    forall|i: int|
        0 <= i < chain.len() ==> #[trigger] stored_checksum(after, chain[i].revision@) == (if runs(
            plan,
            i,
        ) {
            Some(chain[i].checksum@)
        } else {
            stored_checksum(before, chain[i].revision@)
        })
}

proof fn lemma_up_plan_positions(
    fail_on_mismatch: bool,
    allow_destructive: bool,
    chain: Seq<MigrationFile>,
    records: Seq<AppliedRecord>,
    target: Option<Seq<char>>,
    j: int,
)
    requires
        j >= 0,
    ensures
        forall|k: int|
            0 <= k < up_plan(fail_on_mismatch, allow_destructive, chain, records, target, j).len()
                && (#[trigger] up_plan(
                fail_on_mismatch,
                allow_destructive,
                chain,
                records,
                target,
                j,
            )[k]).0 == 0 ==> up_plan(
                fail_on_mismatch,
                allow_destructive,
                chain,
                records,
                target,
                j,
            )[k].1 >= j,
    decreases chain.len() - j,
{
    if j < chain.len() {
        lemma_up_plan_positions(fail_on_mismatch, allow_destructive, chain, records, target, j + 1);
        let plan = up_plan(fail_on_mismatch, allow_destructive, chain, records, target, j);
        let rest = up_plan(fail_on_mismatch, allow_destructive, chain, records, target, j + 1);
        assert forall|k: int| 0 <= k < plan.len() && (#[trigger] plan[k]).0 == 0 implies plan[k].1
            >= j by {
            if k > 0 {
                let f = chain[j];
                let is_target = target == Some(f.revision@);
                match stored_checksum(records, f.revision@) {
                    Some(stored) => {
                        if stored != f.checksum@ && !fail_on_mismatch && !is_target {
                            let m = mismatch_message(f.revision@, stored, f.checksum@);
                            assert(plan == seq![(1int, 0int, m)] + rest);
                            assert(plan[k] == rest[k - 1]);
                        } else if stored == f.checksum@ && !is_target {
                            assert(plan[k] == rest[k]);
                        }
                    },
                    None => {
                        if !(!allow_destructive && destructive(f.up_sql@)) && !is_target {
                            assert(plan == seq![(0int, j, Seq::<char>::empty())] + rest);
                            assert(plan[k] == rest[k - 1]);
                        }
                    },
                }
            }
        }
    }
}

proof fn lemma_up_again_from(
    fail_on_mismatch: bool,
    allow_destructive: bool,
    chain: Seq<MigrationFile>,
    before: Seq<AppliedRecord>,
    after: Seq<AppliedRecord>,
    target: Option<Seq<char>>,
    j: int,
)
    requires
        j >= 0,
        only_runs(up_plan(fail_on_mismatch, allow_destructive, chain, before, target, j)),
        forall|i: int|
            j <= i < chain.len() ==> #[trigger] stored_checksum(after, chain[i].revision@) == (if runs(
                up_plan(fail_on_mismatch, allow_destructive, chain, before, target, j),
                i,
            ) {
                Some(chain[i].checksum@)
            } else {
                stored_checksum(before, chain[i].revision@)
            }),
    ensures
        up_plan(fail_on_mismatch, allow_destructive, chain, after, target, j) == Seq::<
            (int, int, Seq<char>),
        >::empty(),
    decreases chain.len() - j,
{
    if j < chain.len() {
        let f = chain[j];
        let plan = up_plan(fail_on_mismatch, allow_destructive, chain, before, target, j);
        let rest = up_plan(fail_on_mismatch, allow_destructive, chain, before, target, j + 1);
        let is_target = target == Some(f.revision@);
        lemma_up_plan_positions(fail_on_mismatch, allow_destructive, chain, before, target, j + 1);
        match stored_checksum(before, f.revision@) {
            Some(stored) => {
                if stored != f.checksum@ {
                    assert(plan[0].0 != 0);
                    assert(false);
                }
                if !is_target {
                    assert(plan == rest);
                    assert(!runs(plan, j)) by {
                        if runs(plan, j) {
                            let k = choose|k: int|
                                0 <= k < plan.len() && (#[trigger] plan[k]).0 == 0 && plan[k].1 == j;
                            assert(rest[k].1 >= j + 1);
                        }
                    }
                    assert(stored_checksum(after, chain[j].revision@) == Some(f.checksum@));
                    lemma_up_again_from(
                        fail_on_mismatch,
                        allow_destructive,
                        chain,
                        before,
                        after,
                        target,
                        j + 1,
                    );
                } else {
                    assert(plan.len() == 0);
                    assert(!runs(plan, j));
                    assert(stored_checksum(after, chain[j].revision@) == Some(f.checksum@));
                }
            },
            None => {
                if !allow_destructive && destructive(f.up_sql@) {
                    assert(plan[0].0 != 0);
                    assert(false);
                }
                assert(plan[0] == (0int, j, Seq::<char>::empty()));
                assert(runs(plan, j));
                assert(stored_checksum(after, chain[j].revision@) == Some(f.checksum@));
                if !is_target {
                    assert(plan == seq![(0int, j, Seq::<char>::empty())] + rest);
                    assert(only_runs(rest)) by {
                        assert forall|k: int| 0 <= k < rest.len() implies (#[trigger] rest[k]).0
                            == 0 by {
                            assert(rest[k] == plan[k + 1]);
                        }
                    }
                    assert forall|i: int| j + 1 <= i < chain.len() implies runs(plan, i) == runs(
                        rest,
                        i,
                    ) by {
                        if runs(plan, i) {
                            let k = choose|k: int|
                                0 <= k < plan.len() && (#[trigger] plan[k]).0 == 0 && plan[k].1 == i;
                            assert(k > 0);
                            assert(rest[k - 1] == plan[k]);
                        }
                        if runs(rest, i) {
                            let k = choose|k: int|
                                0 <= k < rest.len() && (#[trigger] rest[k]).0 == 0 && rest[k].1 == i;
                            assert(plan[k + 1] == rest[k]);
                        }
                    }
                    lemma_up_again_from(
                        fail_on_mismatch,
                        allow_destructive,
                        chain,
                        before,
                        after,
                        target,
                        j + 1,
                    );
                }
            },
        }
    }
}

/// Bringing the chain up is idempotent: when a plan held no warning and no
/// error, and its migrations were then run and recorded, planning again (with
/// the same target) runs nothing.
pub proof fn lemma_up_is_idempotent(
    fail_on_mismatch: bool,
    allow_destructive: bool,
    chain: Seq<MigrationFile>,
    before: Seq<AppliedRecord>,
    after: Seq<AppliedRecord>,
    target: Option<Seq<char>>,
)
    requires
        only_runs(up_plan(fail_on_mismatch, allow_destructive, chain, before, target, 0)),
        recorded_after(
            chain,
            before,
            after,
            up_plan(fail_on_mismatch, allow_destructive, chain, before, target, 0),
        ),
    ensures
        up_plan(fail_on_mismatch, allow_destructive, chain, after, target, 0) == Seq::<
            (int, int, Seq<char>),
        >::empty(),
{
    lemma_up_again_from(fail_on_mismatch, allow_destructive, chain, before, after, target, 0);
}

/// The positions of the migrations a plan runs, in order.
pub open spec fn run_positions(plan: Seq<(int, int, Seq<char>)>) -> Seq<int> {
    plan.map_values(|s: (int, int, Seq<char>)| s.1)
}

proof fn lemma_fresh_up_plan(
    fail_on_mismatch: bool,
    allow_destructive: bool,
    chain: Seq<MigrationFile>,
    records: Seq<AppliedRecord>,
    target: Option<Seq<char>>,
    j: int,
)
    requires
        0 <= j <= chain.len(),
        forall|i: int| j <= i < chain.len() ==> #[trigger] stored_checksum(records, chain[i].revision@) is None,
        only_runs(up_plan(fail_on_mismatch, allow_destructive, chain, records, target, j)),
    ensures
        up_plan(fail_on_mismatch, allow_destructive, chain, records, target, j).len() <= chain.len()
            - j,
        forall|k: int|
            0 <= k < up_plan(fail_on_mismatch, allow_destructive, chain, records, target, j).len()
                ==> #[trigger] up_plan(
                fail_on_mismatch,
                allow_destructive,
                chain,
                records,
                target,
                j,
            )[k] == (0int, j + k, Seq::<char>::empty()),
    decreases chain.len() - j,
{
    if j < chain.len() {
        let f = chain[j];
        let plan = up_plan(fail_on_mismatch, allow_destructive, chain, records, target, j);
        let rest = up_plan(fail_on_mismatch, allow_destructive, chain, records, target, j + 1);
        assert(stored_checksum(records, chain[j].revision@) is None);
        if !allow_destructive && destructive(f.up_sql@) {
            assert(plan[0].0 != 0);
        }
        if target != Some(f.revision@) {
            assert(plan == seq![(0int, j, Seq::<char>::empty())] + rest);
            assert(only_runs(rest)) by {
                assert forall|k: int| 0 <= k < rest.len() implies (#[trigger] rest[k]).0 == 0 by {
                    assert(rest[k] == plan[k + 1]);
                }
            }
            lemma_fresh_up_plan(fail_on_mismatch, allow_destructive, chain, records, target, j + 1);
            assert forall|k: int| 0 <= k < plan.len() implies #[trigger] plan[k] == (
                0int,
                j + k,
                Seq::<char>::empty(),
            ) by {
                if k > 0 {
                    assert(plan[k] == rest[k - 1]);
                }
            }
        }
    }
}

proof fn lemma_applied_prefix(chain: Seq<MigrationFile>, records: Seq<AppliedRecord>, m: int, n: int)
    requires
        0 <= m <= chain.len(),
        0 <= n <= chain.len(),
        forall|i: int|
            0 <= i < chain.len() ==> (#[trigger] stored_checksum(records, chain[i].revision@) is Some
                <==> i < m),
    ensures
        applied_positions(chain, records, n) == Seq::new(
            (if n <= m {
                n
            } else {
                m
            }) as nat,
            |i: int| (if n <= m {
                n
            } else {
                m
            }) - 1 - i,
        ),
    decreases n,
{
    if n > 0 {
        lemma_applied_prefix(chain, records, m, n - 1);
        assert(stored_checksum(records, chain[n - 1].revision@) is Some <==> n - 1 < m);
        if n <= m {
            assert(applied_positions(chain, records, n) =~= Seq::new(n as nat, |i: int| n - 1 - i));
        } else {
            assert(applied_positions(chain, records, n) == applied_positions(chain, records, n - 1));
        }
    } else {
        assert(applied_positions(chain, records, 0) =~= Seq::<int>::empty());
    }
}

/// On a database where none of the chain is applied yet, the migrations an
/// `up` runs become exactly the applied ones, and a later `down` meets them
/// latest first: the applied positions after the run are the positions the plan
/// ran, in reverse.
pub proof fn lemma_down_meets_up_in_reverse(
    fail_on_mismatch: bool,
    allow_destructive: bool,
    chain: Seq<MigrationFile>,
    before: Seq<AppliedRecord>,
    after: Seq<AppliedRecord>,
    target: Option<Seq<char>>,
)
    requires
        forall|i: int| 0 <= i < chain.len() ==> #[trigger] stored_checksum(before, chain[i].revision@) is None,
        only_runs(up_plan(fail_on_mismatch, allow_destructive, chain, before, target, 0)),
        recorded_after(
            chain,
            before,
            after,
            up_plan(fail_on_mismatch, allow_destructive, chain, before, target, 0),
        ),
    ensures
        applied_positions(chain, after, chain.len() as int) == run_positions(
            up_plan(fail_on_mismatch, allow_destructive, chain, before, target, 0),
        ).reverse(),
{
    let plan = up_plan(fail_on_mismatch, allow_destructive, chain, before, target, 0);
    lemma_fresh_up_plan(fail_on_mismatch, allow_destructive, chain, before, target, 0);
    let m = plan.len() as int;
    assert forall|i: int| 0 <= i < chain.len() implies (#[trigger] stored_checksum(
        after,
        chain[i].revision@,
    ) is Some <==> i < m) by {
        if i < m {
            assert(plan[i] == (0int, i, Seq::<char>::empty()));
            assert(runs(plan, i));
        } else {
            assert(!runs(plan, i)) by {
                if runs(plan, i) {
                    let k = choose|k: int| 0 <= k < plan.len() && (#[trigger] plan[k]).0 == 0 && plan[k].1 == i;
                    assert(plan[k] == (0int, k, Seq::<char>::empty()));
                }
            }
        }
    }
    lemma_applied_prefix(chain, after, m, chain.len() as int);
    assert(run_positions(plan).reverse() =~= Seq::new(m as nat, |i: int| m - 1 - i)) by {
        assert forall|i: int| 0 <= i < m implies run_positions(plan).reverse()[i] == m - 1 - i by {
            assert(plan[m - 1 - i] == (0int, m - 1 - i, Seq::<char>::empty()));
        }
    }
}

/// The positions of the applied migrations of the chain below `n`, latest
/// first.
pub open spec fn applied_positions(chain: Seq<MigrationFile>, records: Seq<AppliedRecord>, n: int) -> Seq<int>
    decreases n,
{
    if n <= 0 || n > chain.len() {
        seq![]
    } else if stored_checksum(records, chain[n - 1].revision@) is Some {
        seq![n - 1] + applied_positions(chain, records, n - 1)
    } else {
        applied_positions(chain, records, n - 1)
    }
}

/// The steps of reverting the given positions in order, stopping at the first
/// migration without a down section.
pub open spec fn down_plan(chain: Seq<MigrationFile>, positions: Seq<int>) -> Seq<(int, int, Seq<char>)>
    decreases positions.len(),
{
    if positions.len() == 0 {
        seq![]
    } else {
        let i = positions[0];
        if 0 <= i < chain.len() && chain[i].down_sql is None {
            seq![(2, 0, no_down_message(chain[i].name@))]
        } else {
            seq![(0, i, Seq::<char>::empty())] + down_plan(chain, positions.drop_first())
        }
    }
}

/// The status of one migration of the chain.
pub open spec fn status_of(f: MigrationFile, records: Seq<AppliedRecord>, s: FileStatus) -> bool {
    &&& s.revision@ == f.revision@
    &&& s.name@ == f.name@
    &&& s.applied == stored_checksum(records, f.revision@) is Some
    &&& s.checksum_matches == match stored_checksum(records, f.revision@) {
        Some(c) => Some(c == f.checksum@),
        None => None,
    }
}

/// Applies and reverts SQL-file migrations from a directory.
#[derive(Debug)]
pub struct FileMigrator {
    dir: String,
    table: String,
    on_mismatch: OnMismatch,
    allow_destructive: bool,
}

/// The default bookkeeping table name.
pub open spec fn default_table() -> Seq<char> {
    "_tork_migrations"@
}

impl FileMigrator {
    /// The directory the migration files live in.
    pub closed spec fn spec_dir(&self) -> Seq<char> {
        self.dir@
    }

    /// The bookkeeping table.
    pub closed spec fn spec_table(&self) -> Seq<char> {
        self.table@
    }

    /// The checksum-mismatch policy.
    pub closed spec fn spec_on_mismatch(&self) -> OnMismatch {
        self.on_mismatch
    }

    /// Whether destructive statements may run.
    pub closed spec fn spec_allow_destructive(&self) -> bool {
        self.allow_destructive
    }

    /// Builds a migrator over the migration files in `dir`, recording in
    /// `_tork_migrations`, failing on a checksum mismatch, and refusing
    /// destructive statements.
    pub fn new(dir: &str) -> (m: Self)
        ensures
            m.spec_dir() == dir@,
            m.spec_table() == default_table(),
            m.spec_on_mismatch() == OnMismatch::Error,
            !m.spec_allow_destructive(),
    {
        FileMigrator {
            dir: owned(dir),
            table: owned("_tork_migrations"),
            on_mismatch: OnMismatch::Error,
            allow_destructive: false,
        }
    }

    /// Overrides the bookkeeping table name.
    pub fn table(self, name: &str) -> (m: Self)
        ensures
            m.spec_table() == name@,
            m.spec_dir() == self.spec_dir(),
            m.spec_on_mismatch() == self.spec_on_mismatch(),
            m.spec_allow_destructive() == self.spec_allow_destructive(),
    {
        FileMigrator { table: owned(name), ..self }
    }

    /// Sets how a changed-since-applied checksum is handled.
    pub fn on_checksum_mismatch(self, on_mismatch: OnMismatch) -> (m: Self)
        ensures
            m.spec_on_mismatch() == on_mismatch,
            m.spec_dir() == self.spec_dir(),
            m.spec_table() == self.spec_table(),
            m.spec_allow_destructive() == self.spec_allow_destructive(),
    {
        FileMigrator { on_mismatch, ..self }
    }

    /// Allows destructive statements (`DROP TABLE`, `DROP COLUMN`).
    pub fn allow_destructive(self, allow: bool) -> (m: Self)
        ensures
            m.spec_allow_destructive() == allow,
            m.spec_dir() == self.spec_dir(),
            m.spec_table() == self.spec_table(),
            m.spec_on_mismatch() == self.spec_on_mismatch(),
    {
        FileMigrator { allow_destructive: allow, ..self }
    }

    /// The directory the migration files live in.
    pub fn dir(&self) -> (d: &str)
        ensures
            d@ == self.spec_dir(),
    {
        self.dir.as_str()
    }

    /// The bookkeeping table.
    pub fn table_name(&self) -> (t: &str)
        ensures
            t@ == self.spec_table(),
    {
        self.table.as_str()
    }

    /// A stable advisory-lock key: the FNV-1a hash of the bookkeeping table's
    /// name, so every instance contends for the same lock.
    pub fn lock_key(&self) -> (k: i64)
        ensures
            k == fnv_hash(vstd::utf8::encode_utf8(self.spec_table())) as i64,
    {
        let hash = fnv1a64(self.table.as_str().as_bytes());
        hash as i64
    }

    /// The statement that begins a migration's transaction.
    pub fn begin_sql<D: Dialect>(&self, dialect: &D) -> (s: String)
        ensures
            s@ == crate::dialect::begin_text(dialect.spec_kind()),
    {
        owned(dialect.begin_sql())
    }

    /// The statement that commits a migration's transaction.
    pub fn commit_sql<D: Dialect>(&self, dialect: &D) -> (s: String)
        ensures
            s@ == "COMMIT"@,
    {
        owned(dialect.commit_sql())
    }

    /// The statement that rolls a migration's transaction back.
    pub fn rollback_sql<D: Dialect>(&self, dialect: &D) -> (s: String)
        ensures
            s@ == "ROLLBACK"@,
    {
        owned(dialect.rollback_sql())
    }

    /// Handles a checksum mismatch: an error under [`OnMismatch::Error`], else
    /// the warning to report.
    pub fn report_mismatch(&self, revision: &str, stored: &str, computed: &str) -> (r: Result<String, OrmError>)
        ensures
            self.spec_on_mismatch() == OnMismatch::Error ==> (r matches Err(e) && e.spec_kind()
                == ErrorKind::Configuration && e.spec_message() == mismatch_message(
                revision@,
                stored@,
                computed@,
            )),
            self.spec_on_mismatch() == OnMismatch::Warn ==> (r matches Ok(w) && w@ == mismatch_message(
                revision@,
                stored@,
                computed@,
            )),
    {
        let mut message = owned("migration checksum mismatch: `");
        push_str(&mut message, revision);
        push_str(&mut message, "` was applied with checksum ");
        push_str(&mut message, stored);
        push_str(&mut message, " but its file now hashes to ");
        push_str(&mut message, computed);
        match self.on_mismatch {
            OnMismatch::Error => Err(OrmError::configuration(message.as_str())),
            OnMismatch::Warn => Ok(message),
        }
    }
}

/// Finds the checksum recorded for `revision`.
pub fn find_stored<'a>(records: &'a Vec<AppliedRecord>, revision: &str) -> (r: Option<&'a String>)
    ensures
        match (r, stored_checksum(records@, revision@)) {
            (Some(s), Some(t)) => s@ == t,
            (None, None) => true,
            _ => false,
        },
{
    let mut i: usize = records.len();
    assert(records@.take(records@.len() as int) == records@);
    while i > 0
        invariant
            i <= records@.len(),
            stored_checksum(records@, revision@) == stored_checksum(records@.take(i as int), revision@),
        decreases i,
    {
        assert(records@.take(i as int).drop_last() == records@.take(i - 1));
        assert(records@.take(i as int).last() == records@[i - 1]);
        if str_eq(records[i - 1].revision.as_str(), revision) {
            return Some(&records[i - 1].checksum);
        }
        i = i - 1;
    }
    None
}

/// The number of applied migrations at positions `lo..hi` of the chain.
pub open spec fn applied_between(chain: Seq<MigrationFile>, records: Seq<AppliedRecord>, lo: int, hi: int) -> nat
    decreases hi - lo,
{
    if hi <= lo || hi > chain.len() || lo < 0 {
        0
    } else {
        applied_between(chain, records, lo, hi - 1) + if stored_checksum(records, chain[hi - 1].revision@) is Some {
            1nat
        } else {
            0nat
        }
    }
}

/// The first position of `revision` in the chain.
pub open spec fn position_of(chain: Seq<MigrationFile>, revision: Seq<char>) -> int
    decreases chain.len(),
{
    if chain.len() == 0 {
        0
    } else if position_of(chain.drop_last(), revision) < chain.len() - 1 {
        position_of(chain.drop_last(), revision)
    } else if chain.last().revision@ == revision {
        chain.len() - 1
    } else {
        chain.len() as int
    }
}

impl FileMigrator {
    /// The steps of applying pending migrations in chain order, through the
    /// migration whose revision starts with `target` when one is given: an
    /// applied migration whose checksum changed is a warning or an error per
    /// the policy, and a destructive migration that is not allowed stops the
    /// run. The target prefix must name exactly one migration.
    pub fn plan_up(&self, chain: &Vec<MigrationFile>, records: &Vec<AppliedRecord>, target: Option<&str>) -> (r: Result<Vec<Step>, OrmError>)
        ensures
            target matches Some(p) && matching_revisions(chain@, p@).len() != 1 ==> (r matches Err(
                e,
            ) && e.spec_kind() == ErrorKind::Configuration),
            r matches Ok(v) ==> steps_view(v@) == up_plan(
                self.spec_on_mismatch() == OnMismatch::Error,
                self.spec_allow_destructive(),
                chain@,
                records@,
                match target {
                    Some(p) => Some(matching_revisions(chain@, p@)[0]),
                    None => None,
                },
                0,
            ),
            (target is None || (target matches Some(p) && matching_revisions(chain@, p@).len() == 1))
                ==> r is Ok,
    {
        let resolved: Option<String> = match target {
            Some(prefix) => Some(resolve(chain.as_slice(), prefix)?),
            None => None,
        };
        let ghost tgt: Option<Seq<char>> = match &resolved {
            Some(t) => Some(t@),
            None => None,
        };
        let ghost fail = self.on_mismatch == OnMismatch::Error;
        let ghost allow = self.allow_destructive;
        let mut steps: Vec<Step> = Vec::new();
        let mut j: usize = 0;
        while j < chain.len()
            invariant
                j <= chain@.len(),
                fail == (self.spec_on_mismatch() == OnMismatch::Error),
                allow == self.spec_allow_destructive(),
                tgt == match &resolved {
                    Some(t) => Some(t@),
                    None => None,
                },
                target matches Some(p) ==> matching_revisions(chain@, p@).len() == 1 && tgt == Some(
                    matching_revisions(chain@, p@)[0],
                ),
                target is None ==> tgt is None,
                steps_view(steps@) + up_plan(fail, allow, chain@, records@, tgt, j as int) == up_plan(
                    fail,
                    allow,
                    chain@,
                    records@,
                    tgt,
                    0,
                ),
            decreases chain@.len() - j,
        {
            let file = &chain[j];
            let is_target = match &resolved {
                Some(t) => str_eq(t.as_str(), file.revision.as_str()),
                None => false,
            };
            let ghost before = steps@;
            let ghost rest = up_plan(fail, allow, chain@, records@, tgt, j + 1);
            match find_stored(records, file.revision.as_str()) {
                Some(stored) => {
                    if !str_eq(stored.as_str(), file.checksum.as_str()) {
                        match self.report_mismatch(file.revision.as_str(), stored.as_str(), file.checksum.as_str()) {
                            Err(e) => {
                                steps.push(Step::Fail(e));
                                assert(steps_view(steps@) =~= steps_view(before) + up_plan(fail, allow, chain@, records@, tgt, j as int));
                                return Ok(steps);
                            },
                            Ok(warning) => {
                                steps.push(Step::Warn(warning));
                                if is_target {
                                    assert(steps_view(steps@) =~= steps_view(before) + up_plan(fail, allow, chain@, records@, tgt, j as int));
                                    return Ok(steps);
                                }
                                assert(steps_view(steps@) + rest =~= steps_view(before) + up_plan(fail, allow, chain@, records@, tgt, j as int));
                            },
                        }
                    } else if is_target {
                        assert(steps_view(steps@) =~= steps_view(before) + up_plan(fail, allow, chain@, records@, tgt, j as int));
                        return Ok(steps);
                    }
                },
                None => {
                    if !self.allow_destructive && is_destructive(file.up_sql.as_str()) {
                        steps.push(Step::Fail(OrmError::configuration("cannot run destructive migration without --allow-destructive")));
                        assert(steps_view(steps@) =~= steps_view(before) + up_plan(fail, allow, chain@, records@, tgt, j as int));
                        return Ok(steps);
                    }
                    steps.push(Step::Run(j));
                    if is_target {
                        assert(steps_view(steps@) =~= steps_view(before) + up_plan(fail, allow, chain@, records@, tgt, j as int));
                        return Ok(steps);
                    }
                    assert(steps_view(steps@) + rest =~= steps_view(before) + up_plan(fail, allow, chain@, records@, tgt, j as int));
                },
            }
            j = j + 1;
        }
        assert(steps_view(steps@) =~= up_plan(fail, allow, chain@, records@, tgt, 0));
        Ok(steps)
    }

    /// The steps of reverting the most recently applied `count` migrations,
    /// latest first, stopping at a migration without a down section.
    pub fn plan_down(&self, chain: &Vec<MigrationFile>, records: &Vec<AppliedRecord>, count: usize) -> (r: Vec<Step>)
        ensures
            steps_view(r@) == down_plan(
                chain@,
                applied_positions(chain@, records@, chain@.len() as int).take(
                    if count <= applied_positions(chain@, records@, chain@.len() as int).len() {
                        count as int
                    } else {
                        applied_positions(chain@, records@, chain@.len() as int).len() as int
                    },
                ),
            ),
    {
        let ghost all = applied_positions(chain@, records@, chain@.len() as int);
        let ghost m: int = if count <= all.len() {
            count as int
        } else {
            all.len() as int
        };
        let ghost goal = down_plan(chain@, all.take(m));
        let mut steps: Vec<Step> = Vec::new();
        let mut left: usize = count;
        let mut j: usize = chain.len();
        proof {
            lemma_applied_positions_len(chain@, records@, chain@.len() as int);
        }
        while j > 0 && left > 0
            invariant
                j <= chain@.len(),
                left <= count,
                all == applied_positions(chain@, records@, chain@.len() as int),
                m == if count <= all.len() {
                    count as int
                } else {
                    all.len() as int
                },
                goal == down_plan(chain@, all.take(m)),
                steps_view(steps@) + down_plan(chain@, applied_positions(chain@, records@, j as int).take(
                    if left <= applied_positions(chain@, records@, j as int).len() {
                        left as int
                    } else {
                        applied_positions(chain@, records@, j as int).len() as int
                    },
                )) == goal,
            decreases j,
        {
            let ghost before = steps@;
            let ghost ps = applied_positions(chain@, records@, j as int);
            let ghost t: int = if left <= ps.len() {
                left as int
            } else {
                ps.len() as int
            };
            let file = &chain[j - 1];
            if find_stored(records, file.revision.as_str()).is_some() {
                proof {
                    lemma_applied_positions_len(chain@, records@, j - 1);
                    assert(ps == seq![j - 1] + applied_positions(chain@, records@, j - 1));
                    assert(ps.take(t) =~= seq![(j - 1) as int] + applied_positions(chain@, records@, j - 1).take(t - 1));
                    assert(ps.take(t).drop_first() =~= applied_positions(chain@, records@, j - 1).take(t - 1));
                }
                match &file.down_sql {
                    None => {
                        let mut message = owned("migration `");
                        push_str(&mut message, file.name.as_str());
                        push_str(&mut message, "` has no `-- migrate:down` section to revert");
                        steps.push(Step::Fail(OrmError::configuration(message.as_str())));
                        assert(down_plan(chain@, ps.take(t)) == seq![(2int, 0int, no_down_message(chain@[j - 1].name@))]);
                        assert(steps_view(steps@) =~= steps_view(before) + down_plan(chain@, ps.take(t)));
                        return steps;
                    },
                    Some(_) => {
                        steps.push(Step::Run(j - 1));
                        assert(steps_view(steps@) + down_plan(chain@, applied_positions(chain@, records@, j - 1).take(t - 1)) =~= steps_view(before) + down_plan(chain@, ps.take(t)));
                    },
                }
                left = left - 1;
            }
            j = j - 1;
        }
        proof {
            let ps = applied_positions(chain@, records@, j as int);
            if j == 0 {
                assert(ps.len() == 0);
            }
            assert(ps.take(0) =~= Seq::<int>::empty());
            assert(steps_view(steps@) =~= goal);
        }
        steps
    }

    /// The number of applied migrations after the one whose revision starts
    /// with `revision` (which stays applied); the prefix must name exactly one
    /// migration.
    pub fn down_to_count(&self, chain: &Vec<MigrationFile>, records: &Vec<AppliedRecord>, revision: &str) -> (r: Result<usize, OrmError>)
        ensures
            matching_revisions(chain@, revision@).len() == 1 ==> (r matches Ok(n) && n == applied_between(
                chain@,
                records@,
                position_of(chain@, matching_revisions(chain@, revision@)[0]) + 1,
                chain@.len() as int,
            )),
            matching_revisions(chain@, revision@).len() != 1 ==> (r matches Err(e) && e.spec_kind()
                == ErrorKind::Configuration),
    {
        let target = resolve(chain.as_slice(), revision)?;
        let mut p: usize = 0;
        while p < chain.len() && !str_eq(chain[p].revision.as_str(), target.as_str())
            invariant
                p <= chain@.len(),
                forall|i: int| 0 <= i < p ==> chain@[i].revision@ != target@,
            decreases chain@.len() - p,
        {
            p = p + 1;
        }
        proof {
            lemma_position_of(chain@, target@, p as int);
        }
        let mut n: usize = 0;
        let mut j: usize = if p < chain.len() {
            p + 1
        } else {
            chain.len()
        };
        let start = j;
        while j < chain.len()
            invariant
                start <= j <= chain@.len(),
                n == applied_between(chain@, records@, position_of(chain@, target@) + 1, j as int),
                start as int == if position_of(chain@, target@) + 1 > chain@.len() { chain@.len() as int } else { position_of(chain@, target@) + 1 },
                n <= j,
            decreases chain@.len() - j,
        {
            if find_stored(records, chain[j].revision.as_str()).is_some() {
                n = n + 1;
            }
            j = j + 1;
        }
        Ok(n)
    }

    /// Reports the applied state of every migration in the chain.
    pub fn status(&self, chain: &Vec<MigrationFile>, records: &Vec<AppliedRecord>) -> (r: Vec<FileStatus>)
        ensures
            r@.len() == chain@.len(),
            forall|i: int| 0 <= i < chain@.len() ==> status_of(chain@[i], records@, #[trigger] r@[i]),
    {
        let mut out: Vec<FileStatus> = Vec::new();
        let mut i: usize = 0;
        while i < chain.len()
            invariant
                i <= chain@.len(),
                out@.len() == i,
                forall|j: int| 0 <= j < i ==> status_of(chain@[j], records@, #[trigger] out@[j]),
            decreases chain@.len() - i,
        {
            let file = &chain[i];
            let checksum_matches = match find_stored(records, file.revision.as_str()) {
                Some(stored) => Some(str_eq(stored.as_str(), file.checksum.as_str())),
                None => None,
            };
            out.push(FileStatus {
                revision: file.revision.clone(),
                name: file.name.clone(),
                applied: checksum_matches.is_some(),
                checksum_matches,
            });
            i = i + 1;
        }
        out
    }
}

proof fn lemma_applied_positions_len(chain: Seq<MigrationFile>, records: Seq<AppliedRecord>, n: int)
    requires
        0 <= n <= chain.len(),
    ensures
        applied_positions(chain, records, n).len() <= n,
    decreases n,
{
    if n > 0 {
        lemma_applied_positions_len(chain, records, n - 1);
    }
}

proof fn lemma_position_of(chain: Seq<MigrationFile>, rev: Seq<char>, p: int)
    requires
        0 <= p <= chain.len(),
        forall|i: int| 0 <= i < p ==> chain[i].revision@ != rev,
        p < chain.len() ==> chain[p].revision@ == rev,
    ensures
        position_of(chain, rev) == p,
    decreases chain.len(),
{
    if chain.len() > 0 {
        if p < chain.len() - 1 {
            lemma_position_of(chain.drop_last(), rev, p);
        } else {
            lemma_position_none(chain.drop_last(), rev);
        }
    }
}

proof fn lemma_position_none(chain: Seq<MigrationFile>, rev: Seq<char>)
    requires
        forall|i: int| 0 <= i < chain.len() ==> chain[i].revision@ != rev,
    ensures
        position_of(chain, rev) == chain.len(),
    decreases chain.len(),
{
    if chain.len() > 0 {
        lemma_position_none(chain.drop_last(), rev);
    }
}

} // verus!
