//! The command line's grammar:
//! `tork-orm [options] migrate [options] <command> [options] [argument]`.
//!
//! The global options (`--database-url`/`-d`, `--dir`, `--table`, `--yes`/`-y`,
//! `--allow-checksum-mismatch`, `--allow-destructive`, `--no-color`) may appear
//! before or after either subcommand. A valued option takes its value attached
//! (`--dir=x`, `-dx`, `-d=x`) or from the next argument; short flags may be
//! bundled (`-yd url`). Giving an option twice at one level is an error; one given
//! again after a later subcommand replaces the earlier value. `--` ends option
//! parsing. `--help`/`-h` (anywhere) and `--version`/`-V` (before `migrate`) stop
//! parsing with a request to print help or the version.

use vstd::prelude::*;

use crate::text::{chars_of, lemma_leading_count_unique, leading_count, owned, str_eq, string_of_range};

verus! {

/// The top-level command groups.
#[derive(Debug)]
pub enum TopCommand {
    /// Database migrations.
    Migrate(MigrateCommand),
}

/// The migration subcommands.
#[derive(Debug)]
pub enum MigrateCommand {
    /// Apply pending migrations (optionally up to a revision; `head` = all).
    Up {
        /// A revision (or unique prefix), or `head` / nothing for all.
        target: Option<String>,
    },
    /// Revert migrations (`<n>` steps, `base` = all, or a `<revision>`).
    Down {
        /// A step count, `base`, or a revision (or unique prefix).
        target: Option<String>,
    },
    /// Show the applied state of each migration.
    Status,
    /// Revert the most recent migration and re-apply pending.
    Redo,
    /// Scaffold a new migration file.
    Create {
        /// A short name for the migration (e.g. `add_orders`).
        name: String,
    },
    /// Create the migrations directory.
    Init,
}

/// The options available on every command.
#[derive(Debug, Clone)]
pub struct GlobalArgs {
    /// The database URL (the environment's `DATABASE_URL`, then `DB_URL`, stand in
    /// when it is not given).
    pub database_url: Option<String>,
    /// The migrations directory (default `migrations`).
    pub dir: Option<String>,
    /// The bookkeeping table name (default `_tork_migrations`).
    pub table: Option<String>,
    /// Skip confirmation prompts.
    pub yes: bool,
    /// Proceed despite a checksum mismatch on an already-applied migration.
    pub allow_checksum_mismatch: bool,
    /// Allow destructive statements (`DROP TABLE`, `DROP COLUMN`) in migrations.
    pub allow_destructive: bool,
    /// Disable colored output.
    pub no_color: bool,
}

/// A parsed command line.
#[derive(Debug)]
pub struct Cli {
    /// The top-level command.
    pub command: TopCommand,
    /// Options shared by every command.
    pub global: GlobalArgs,
}

/// Why a command line was not accepted.
#[derive(Debug, Clone, Copy, PartialEq, Eq, Structural)]
pub enum ArgErrorKind {
    /// `--help`, `-h` or `help` was given: print the help text.
    DisplayHelp,
    /// `--version` or `-V` was given: print the version.
    DisplayVersion,
    /// An option that no command knows.
    UnknownArgument,
    /// A value attached to a flag that takes none (`--yes=1`).
    UnexpectedValue,
    /// A valued option without its value.
    MissingValue,
    /// An option given twice at one level.
    Repeated,
    /// A positional argument that no command takes.
    UnexpectedArgument,
    /// A subcommand name that does not exist.
    InvalidSubcommand,
    /// The command line ends before a migration subcommand.
    MissingSubcommand,
    /// `create` without the migration's name.
    MissingName,
}

/// A rejected command line: the reason, and the argument it concerns.
#[derive(Debug)]
pub struct ArgError {
    /// Why the command line was rejected.
    pub kind: ArgErrorKind,
    /// The offending argument or option name (empty where there is none).
    pub arg: String,
}

// ---------------------------------------------------------------------------
// The grammar
// ---------------------------------------------------------------------------

/// What the arguments read so far have established. Options are numbered
/// `0` database URL, `1` directory, `2` table; flags `0` yes, `1` allow checksum
/// mismatch, `2` allow destructive, `3` no color; migration subcommands `0` up,
/// `1` down, `2` status, `3` redo, `4` create, `5` init.
#[verifier::ext_equal]
pub struct ArgsModel {
    /// `0` before `migrate`, `1` after it, `2` after the migration subcommand.
    pub level: nat,
    /// The migration subcommand, once `level` is `2`.
    pub command: nat,
    /// Whether `--` has ended option parsing.
    pub escaped: bool,
    /// A valued option whose value is the next argument.
    pub pending: Option<nat>,
    /// For each valued option, `0` if absent, else one more than the level it
    /// was last given at.
    pub opt_level: Seq<nat>,
    /// For each valued option, its last value.
    pub opt_value: Seq<Seq<char>>,
    /// For each flag, `0` if absent, else one more than the level it was given at.
    pub flag_level: Seq<nat>,
    /// The subcommand's positional argument.
    pub positional: Option<Seq<char>>,
}

/// The state after some arguments, or the error that stopped parsing.
pub type ArgsOutcome = Result<ArgsModel, (ArgErrorKind, Seq<char>)>;

/// The state before any argument.
pub open spec fn start_model() -> ArgsModel {
    ArgsModel {
        level: 0,
        command: 0,
        escaped: false,
        pending: None,
        opt_level: seq![0nat, 0nat, 0nat],
        opt_value: seq![Seq::<char>::empty(), Seq::<char>::empty(), Seq::<char>::empty()],
        flag_level: seq![0nat, 0nat, 0nat, 0nat],
        positional: None,
    }
}

/// The spelling of a valued option.
pub open spec fn opt_name(o: nat) -> Seq<char> {
    if o == 0 {
        "--database-url"@
    } else if o == 1 {
        "--dir"@
    } else {
        "--table"@
    }
}

/// The spelling of a flag.
pub open spec fn flag_name(f: nat) -> Seq<char> {
    if f == 0 {
        "--yes"@
    } else if f == 1 {
        "--allow-checksum-mismatch"@
    } else if f == 2 {
        "--allow-destructive"@
    } else {
        "--no-color"@
    }
}

/// The valued option a long name (without `--`) denotes.
pub open spec fn long_opt(name: Seq<char>) -> Option<nat> {
    if name == "database-url"@ {
        Some(0)
    } else if name == "dir"@ {
        Some(1)
    } else if name == "table"@ {
        Some(2)
    } else {
        None
    }
}

/// The flag a long name (without `--`) denotes.
pub open spec fn long_flag(name: Seq<char>) -> Option<nat> {
    if name == "yes"@ {
        Some(0)
    } else if name == "allow-checksum-mismatch"@ {
        Some(1)
    } else if name == "allow-destructive"@ {
        Some(2)
    } else if name == "no-color"@ {
        Some(3)
    } else {
        None
    }
}

/// The migration subcommand a name denotes.
pub open spec fn command_of(name: Seq<char>) -> Option<nat> {
    if name == "up"@ {
        Some(0)
    } else if name == "down"@ {
        Some(1)
    } else if name == "status"@ {
        Some(2)
    } else if name == "redo"@ {
        Some(3)
    } else if name == "create"@ {
        Some(4)
    } else if name == "init"@ {
        Some(5)
    } else {
        None
    }
}

/// Whether a migration subcommand takes a positional argument.
pub open spec fn takes_argument(command: nat) -> bool {
    command == 0 || command == 1 || command == 4
}

/// Whether an argument looks like an option (a `-` and at least one more
/// character).
pub open spec fn looks_like_option(t: Seq<char>) -> bool {
    t.len() > 1 && t[0] == '-'
}

/// Sets flag `f` at the current level.
pub open spec fn with_flag(m: ArgsModel, f: nat) -> ArgsOutcome {
    if m.flag_level[f as int] == m.level + 1 {
        Err((ArgErrorKind::Repeated, flag_name(f)))
    } else {
        Ok(ArgsModel { flag_level: m.flag_level.update(f as int, m.level + 1), ..m })
    }
}

/// Gives valued option `o` the value `v` at the current level.
pub open spec fn with_opt(m: ArgsModel, o: nat, v: Seq<char>) -> ArgsOutcome {
    if m.opt_level[o as int] == m.level + 1 {
        Err((ArgErrorKind::Repeated, opt_name(o)))
    } else {
        Ok(
            ArgsModel {
                pending: None,
                opt_level: m.opt_level.update(o as int, m.level + 1),
                opt_value: m.opt_value.update(o as int, v),
                ..m
            },
        )
    }
}

/// Whether `c` is not `=`.
pub open spec fn not_equals_sign(c: char) -> bool {
    c != '='
}

/// A long option without its leading `--`.
pub open spec fn long_body(t: Seq<char>) -> Seq<char> {
    t.subrange(2, t.len() as int)
}

/// Where a long option's name ends: at its first `=`, or at its end.
pub open spec fn long_name_end(t: Seq<char>) -> nat {
    leading_count(long_body(t), |c: char| not_equals_sign(c))
}

/// A long option's name.
pub open spec fn long_name(t: Seq<char>) -> Seq<char> {
    long_body(t).take(long_name_end(t) as int)
}

/// The value attached to a long option after its first `=`.
pub open spec fn long_value(t: Seq<char>) -> Option<Seq<char>> {
    let b = long_body(t);
    let e = long_name_end(t);
    if e < b.len() {
        Some(b.subrange((e + 1) as int, b.len() as int))
    } else {
        None
    }
}

/// Reads a long option `t` (starting with `--`).
pub open spec fn long_step(m: ArgsModel, t: Seq<char>) -> ArgsOutcome {
    let name = long_name(t);
    let value = long_value(t);
    if name == "help"@ {
        if value is Some {
            Err((ArgErrorKind::UnexpectedValue, t))
        } else {
            Err((ArgErrorKind::DisplayHelp, ""@))
        }
    } else if name == "version"@ && m.level == 0 {
        if value is Some {
            Err((ArgErrorKind::UnexpectedValue, t))
        } else {
            Err((ArgErrorKind::DisplayVersion, ""@))
        }
    } else if long_opt(name) is Some {
        match value {
            Some(v) => with_opt(m, long_opt(name).unwrap(), v),
            None => Ok(ArgsModel { pending: long_opt(name), ..m }),
        }
    } else if long_flag(name) is Some {
        if value is Some {
            Err((ArgErrorKind::UnexpectedValue, t))
        } else {
            with_flag(m, long_flag(name).unwrap())
        }
    } else {
        Err((ArgErrorKind::UnknownArgument, t))
    }
}

/// Reads the characters `cs` of a bundle of short options `t`, left to right.
pub open spec fn short_step(m: ArgsModel, cs: Seq<char>, t: Seq<char>) -> ArgsOutcome
    decreases cs.len(),
{
    if cs.len() == 0 {
        Ok(m)
    } else {
        let c = cs[0];
        let rest = cs.drop_first();
        if c == 'h' {
            Err((ArgErrorKind::DisplayHelp, ""@))
        } else if c == 'V' && m.level == 0 {
            Err((ArgErrorKind::DisplayVersion, ""@))
        } else if c == 'y' {
            match with_flag(m, 0) {
                Ok(m2) => short_step(m2, rest, t),
                Err(e) => Err(e),
            }
        } else if c == 'd' {
            if rest.len() == 0 {
                Ok(ArgsModel { pending: Some(0), ..m })
            } else if rest[0] == '=' {
                with_opt(m, 0, rest.drop_first())
            } else {
                with_opt(m, 0, rest)
            }
        } else {
            Err((ArgErrorKind::UnknownArgument, t))
        }
    }
}

/// Reads a positional argument: a subcommand name, or the subcommand's argument.
pub open spec fn positional_step(m: ArgsModel, t: Seq<char>) -> ArgsOutcome {
    if m.level == 0 {
        if t == "migrate"@ {
            Ok(ArgsModel { level: 1, ..m })
        } else if t == "help"@ {
            Err((ArgErrorKind::DisplayHelp, ""@))
        } else {
            Err((ArgErrorKind::InvalidSubcommand, t))
        }
    } else if m.level == 1 {
        if command_of(t) is Some {
            Ok(ArgsModel { level: 2, command: command_of(t).unwrap(), ..m })
        } else if t == "help"@ {
            Err((ArgErrorKind::DisplayHelp, ""@))
        } else {
            Err((ArgErrorKind::InvalidSubcommand, t))
        }
    } else if takes_argument(m.command) && m.positional is None {
        Ok(ArgsModel { positional: Some(t), ..m })
    } else {
        Err((ArgErrorKind::UnexpectedArgument, t))
    }
}

/// Reads one argument.
pub open spec fn step(m: ArgsModel, t: Seq<char>) -> ArgsOutcome {
    match m.pending {
        Some(o) => if looks_like_option(t) {
            Err((ArgErrorKind::MissingValue, opt_name(o)))
        } else {
            with_opt(m, o, t)
        },
        None => if m.escaped {
            if m.level < 2 {
                Err((ArgErrorKind::UnexpectedArgument, t))
            } else {
                positional_step(m, t)
            }
        } else if t == "--"@ {
            Ok(ArgsModel { escaped: true, ..m })
        } else if t.len() >= 2 && t[0] == '-' && t[1] == '-' {
            long_step(m, t)
        } else if looks_like_option(t) {
            short_step(m, t.drop_first(), t)
        } else {
            positional_step(m, t)
        },
    }
}

/// Reads the arguments `ts` in order, stopping at the first error.
pub open spec fn parse_tokens(ts: Seq<Seq<char>>) -> ArgsOutcome
    decreases ts.len(),
{
    if ts.len() == 0 {
        Ok(start_model())
    } else {
        match parse_tokens(ts.drop_last()) {
            Ok(m) => step(m, ts.last()),
            Err(e) => Err(e),
        }
    }
}

/// Checks the state after the last argument.
pub open spec fn finish(m: ArgsModel) -> ArgsOutcome {
    match m.pending {
        Some(o) => Err((ArgErrorKind::MissingValue, opt_name(o))),
        None => if m.level < 2 {
            Err((ArgErrorKind::MissingSubcommand, ""@))
        } else if m.command == 4 && m.positional is None {
            Err((ArgErrorKind::MissingName, "<NAME>"@))
        } else {
            Ok(m)
        },
    }
}

/// The characters of each argument.
pub open spec fn args_view(args: Seq<&str>) -> Seq<Seq<char>> {
    args.map_values(|a: &str| a@)
}

/// Parses a whole command line, whose first element is the program's name.
pub open spec fn parse_args(args: Seq<Seq<char>>) -> ArgsOutcome {
    let ts = if args.len() == 0 {
        args
    } else {
        args.drop_first()
    };
    match parse_tokens(ts) {
        Ok(m) => finish(m),
        Err(e) => Err(e),
    }
}

/// An optional string by its characters.
pub open spec fn opt_view(o: Option<String>) -> Option<Seq<char>> {
    match o {
        Some(s) => Some(s@),
        None => None,
    }
}

/// The value of valued option `o`, if it was given.
pub open spec fn given(m: ArgsModel, o: nat) -> Option<Seq<char>> {
    if m.opt_level[o as int] > 0 {
        Some(m.opt_value[o as int])
    } else {
        None
    }
}

/// Whether `c` is migration subcommand `command` with argument `positional`.
pub open spec fn command_is(c: MigrateCommand, command: nat, positional: Option<Seq<char>>) -> bool {
    match c {
        MigrateCommand::Up { target } => command == 0 && opt_view(target) == positional,
        MigrateCommand::Down { target } => command == 1 && opt_view(target) == positional,
        MigrateCommand::Status => command == 2,
        MigrateCommand::Redo => command == 3,
        MigrateCommand::Create { name } => command == 4 && positional == Some(name@),
        MigrateCommand::Init => command == 5,
    }
}

/// Whether `cli` is what the final state `m` describes.
pub open spec fn describes(cli: Cli, m: ArgsModel) -> bool {
    &&& opt_view(cli.global.database_url) == given(m, 0)
    &&& opt_view(cli.global.dir) == given(m, 1)
    &&& opt_view(cli.global.table) == given(m, 2)
    &&& cli.global.yes == (m.flag_level[0] > 0)
    &&& cli.global.allow_checksum_mismatch == (m.flag_level[1] > 0)
    &&& cli.global.allow_destructive == (m.flag_level[2] > 0)
    &&& cli.global.no_color == (m.flag_level[3] > 0)
    &&& match cli.command {
        TopCommand::Migrate(c) => command_is(c, m.command, m.positional),
    }
}

/// Whether `r` is the error `e`.
pub open spec fn is_error<T>(r: Result<T, ArgError>, e: (ArgErrorKind, Seq<char>)) -> bool {
    r matches Err(err) && err.kind == e.0 && err.arg@ == e.1
}

proof fn lemma_error_persists(ts: Seq<Seq<char>>, n: int)
    requires
        0 <= n <= ts.len(),
        parse_tokens(ts.take(n)) is Err,
    ensures
        parse_tokens(ts) == parse_tokens(ts.take(n)),
    decreases ts.len() - n,
{
    if n < ts.len() {
        assert(ts.take(n + 1).drop_last() == ts.take(n));
        lemma_error_persists(ts, n + 1);
    } else {
        assert(ts.take(n) == ts);
    }
}

// ---------------------------------------------------------------------------
// The parser
// ---------------------------------------------------------------------------

struct ArgState {
    level: usize,
    command: usize,
    escaped: bool,
    pending: Option<usize>,
    opt_level: Vec<usize>,
    opt_value: Vec<String>,
    flag_level: Vec<usize>,
    positional: Option<String>,
}

impl ArgState {
    spec fn model(&self) -> ArgsModel {
        ArgsModel {
            level: self.level as nat,
            command: self.command as nat,
            escaped: self.escaped,
            pending: match self.pending {
                Some(o) => Some(o as nat),
                None => None,
            },
            opt_level: self.opt_level@.map_values(|l: usize| l as nat),
            opt_value: self.opt_value@.map_values(|s: String| s@),
            flag_level: self.flag_level@.map_values(|l: usize| l as nat),
            positional: opt_view(self.positional),
        }
    }

    spec fn wf(&self) -> bool {
        &&& self.level <= 2
        &&& self.command <= 5
        &&& self.opt_level@.len() == 3
        &&& self.opt_value@.len() == 3
        &&& self.flag_level@.len() == 4
        &&& self.pending matches Some(o) ==> o < 3
    }

    fn new() -> (st: ArgState)
        ensures
            st.wf(),
            st.model() == start_model(),
    {
        let st = ArgState {
            level: 0,
            command: 0,
            escaped: false,
            pending: None,
            opt_level: vec![0, 0, 0],
            opt_value: vec![String::new(), String::new(), String::new()],
            flag_level: vec![0, 0, 0, 0],
            positional: None,
        };
        assert(st.model() =~= start_model());
        st
    }
}

/// Whether the parser state `st` and the result `r` of a step agree with the
/// outcome `x` the grammar gives.
spec fn reached(st: ArgState, r: Result<(), ArgError>, x: ArgsOutcome) -> bool {
    match x {
        Ok(m) => r is Ok && st.wf() && st.model() == m,
        Err(e) => is_error(r, e),
    }
}

fn fail(kind: ArgErrorKind, arg: &str) -> (e: ArgError)
    ensures
        e.kind == kind,
        e.arg@ == arg@,
{
    ArgError { kind, arg: owned(arg) }
}

fn opt_label(o: usize) -> (s: &'static str)
    ensures
        s@ == opt_name(o as nat),
{
    if o == 0 {
        "--database-url"
    } else if o == 1 {
        "--dir"
    } else {
        "--table"
    }
}

fn flag_label(f: usize) -> (s: &'static str)
    ensures
        s@ == flag_name(f as nat),
{
    if f == 0 {
        "--yes"
    } else if f == 1 {
        "--allow-checksum-mismatch"
    } else if f == 2 {
        "--allow-destructive"
    } else {
        "--no-color"
    }
}

fn long_opt_of(name: &str) -> (r: Option<usize>)
    ensures
        long_opt(name@) == (match r {
            Some(o) => Some(o as nat),
            None => None,
        }),
        r matches Some(o) ==> o < 3,
{
    if str_eq(name, "database-url") {
        Some(0)
    } else if str_eq(name, "dir") {
        Some(1)
    } else if str_eq(name, "table") {
        Some(2)
    } else {
        None
    }
}

fn long_flag_of(name: &str) -> (r: Option<usize>)
    ensures
        long_flag(name@) == (match r {
            Some(f) => Some(f as nat),
            None => None,
        }),
        r matches Some(f) ==> f < 4,
{
    if str_eq(name, "yes") {
        Some(0)
    } else if str_eq(name, "allow-checksum-mismatch") {
        Some(1)
    } else if str_eq(name, "allow-destructive") {
        Some(2)
    } else if str_eq(name, "no-color") {
        Some(3)
    } else {
        None
    }
}

fn command_named(name: &str) -> (r: Option<usize>)
    ensures
        command_of(name@) == (match r {
            Some(k) => Some(k as nat),
            None => None,
        }),
        r matches Some(k) ==> k <= 5,
{
    if str_eq(name, "up") {
        Some(0)
    } else if str_eq(name, "down") {
        Some(1)
    } else if str_eq(name, "status") {
        Some(2)
    } else if str_eq(name, "redo") {
        Some(3)
    } else if str_eq(name, "create") {
        Some(4)
    } else if str_eq(name, "init") {
        Some(5)
    } else {
        None
    }
}

fn set_flag(st: &mut ArgState, f: usize) -> (r: Result<(), ArgError>)
    requires
        old(st).wf(),
        f < 4,
    ensures
        reached(*final(st), r, with_flag(old(st).model(), f as nat)),
{
    if st.flag_level[f] == st.level + 1 {
        return Err(fail(ArgErrorKind::Repeated, flag_label(f)));
    }
    let lv = st.level + 1;
    st.flag_level.set(f, lv);
    assert(st.model() =~= ArgsModel {
        flag_level: old(st).model().flag_level.update(f as int, old(st).model().level + 1),
        ..old(st).model()
    });
    Ok(())
}

fn set_opt(st: &mut ArgState, o: usize, v: String) -> (r: Result<(), ArgError>)
    requires
        old(st).wf(),
        o < 3,
    ensures
        reached(*final(st), r, with_opt(old(st).model(), o as nat, v@)),
{
    if st.opt_level[o] == st.level + 1 {
        return Err(fail(ArgErrorKind::Repeated, opt_label(o)));
    }
    let ghost value = v@;
    let lv = st.level + 1;
    st.opt_level.set(o, lv);
    st.opt_value.set(o, v);
    st.pending = None;
    assert(st.model() =~= ArgsModel {
        pending: None,
        opt_level: old(st).model().opt_level.update(o as int, old(st).model().level + 1),
        opt_value: old(st).model().opt_value.update(o as int, value),
        ..old(st).model()
    });
    Ok(())
}

fn await_value(st: &mut ArgState, o: usize)
    requires
        old(st).wf(),
        o < 3,
    ensures
        final(st).wf(),
        final(st).model() == (ArgsModel { pending: Some(o as nat), ..old(st).model() }),
{
    st.pending = Some(o);
    assert(st.model() =~= ArgsModel { pending: Some(o as nat), ..old(st).model() });
}

fn long_arg(st: &mut ArgState, t: &str, chars: &Vec<char>) -> (r: Result<(), ArgError>)
    requires
        old(st).wf(),
        chars@ == t@,
        t@.len() >= 2,
        t@[0] == '-',
        t@[1] == '-',
    ensures
        reached(*final(st), r, long_step(old(st).model(), t@)),
{
    let n = chars.len();
    let mut k: usize = 2;
    while k < n && chars[k] != '='
        invariant
            2 <= k <= n,
            n == chars@.len(),
            forall|j: int| 2 <= j < k ==> chars@[j] != '=',
        decreases n - k,
    {
        k = k + 1;
    }
    proof {
        let body = long_body(t@);
        assert forall|j: int| 0 <= j < k - 2 implies not_equals_sign(#[trigger] body[j]) by {
            assert(body[j] == chars@[j + 2]);
        }
        if k < n {
            assert(body[k - 2] == chars@[k as int]);
        }
        lemma_leading_count_unique(body, |c: char| not_equals_sign(c), k - 2);
        assert(long_name(t@) == chars@.subrange(2, k as int));
        if k < n {
            assert(long_value(t@) == Some(chars@.subrange(k + 1, n as int)));
        } else {
            assert(long_value(t@) is None);
        }
    }
    let name = string_of_range(chars, 2, k);
    let has_value = k < n;
    if str_eq(name.as_str(), "help") {
        if has_value {
            return Err(fail(ArgErrorKind::UnexpectedValue, t));
        }
        return Err(fail(ArgErrorKind::DisplayHelp, ""));
    }
    if str_eq(name.as_str(), "version") && st.level == 0 {
        if has_value {
            return Err(fail(ArgErrorKind::UnexpectedValue, t));
        }
        return Err(fail(ArgErrorKind::DisplayVersion, ""));
    }
    match long_opt_of(name.as_str()) {
        Some(o) => {
            if has_value {
                let v = string_of_range(chars, k + 1, n);
                return set_opt(st, o, v);
            }
            await_value(st, o);
            return Ok(());
        },
        None => {},
    }
    match long_flag_of(name.as_str()) {
        Some(f) => {
            if has_value {
                return Err(fail(ArgErrorKind::UnexpectedValue, t));
            }
            return set_flag(st, f);
        },
        None => {},
    }
    Err(fail(ArgErrorKind::UnknownArgument, t))
}

fn short_args(st: &mut ArgState, t: &str, chars: &Vec<char>) -> (r: Result<(), ArgError>)
    requires
        old(st).wf(),
        chars@ == t@,
        t@.len() > 1,
        t@[0] == '-',
    ensures
        reached(*final(st), r, short_step(old(st).model(), t@.drop_first(), t@)),
{
    let ghost m0 = st.model();
    let n = chars.len();
    let mut j: usize = 1;
    assert(t@.drop_first() == t@.subrange(1, n as int));
    while j < n
        invariant
            1 <= j <= n,
            n == chars@.len(),
            chars@ == t@,
            st.wf(),
            m0 == old(st).model(),
            short_step(m0, t@.drop_first(), t@) == short_step(
                st.model(),
                t@.subrange(j as int, n as int),
                t@,
            ),
        decreases n - j,
    {
        let c = chars[j];
        let ghost cs = t@.subrange(j as int, n as int);
        assert(cs[0] == c);
        assert(cs.drop_first() == t@.subrange(j + 1, n as int));
        if c == 'h' {
            return Err(fail(ArgErrorKind::DisplayHelp, ""));
        }
        if c == 'V' && st.level == 0 {
            return Err(fail(ArgErrorKind::DisplayVersion, ""));
        }
        if c == 'y' {
            match set_flag(st, 0) {
                Err(e) => {
                    return Err(e);
                },
                Ok(()) => {},
            }
            j = j + 1;
        } else if c == 'd' {
            if j + 1 == n {
                await_value(st, 0);
                return Ok(());
            }
            assert(cs.drop_first()[0] == chars@[j + 1]);
            if chars[j + 1] == '=' {
                let v = string_of_range(chars, j + 2, n);
                assert(cs.drop_first().drop_first() == t@.subrange(j + 2, n as int));
                return set_opt(st, 0, v);
            }
            let v = string_of_range(chars, j + 1, n);
            return set_opt(st, 0, v);
        } else {
            return Err(fail(ArgErrorKind::UnknownArgument, t));
        }
    }
    Ok(())
}

fn positional_arg(st: &mut ArgState, t: &str) -> (r: Result<(), ArgError>)
    requires
        old(st).wf(),
    ensures
        reached(*final(st), r, positional_step(old(st).model(), t@)),
{
    if st.level == 0 {
        if str_eq(t, "migrate") {
            st.level = 1;
            assert(st.model() =~= ArgsModel { level: 1, ..old(st).model() });
            return Ok(());
        }
        if str_eq(t, "help") {
            return Err(fail(ArgErrorKind::DisplayHelp, ""));
        }
        return Err(fail(ArgErrorKind::InvalidSubcommand, t));
    }
    if st.level == 1 {
        match command_named(t) {
            Some(k) => {
                st.level = 2;
                st.command = k;
                assert(st.model() =~= ArgsModel {
                    level: 2,
                    command: command_of(t@).unwrap(),
                    ..old(st).model()
                });
                return Ok(());
            },
            None => {},
        }
        if str_eq(t, "help") {
            return Err(fail(ArgErrorKind::DisplayHelp, ""));
        }
        return Err(fail(ArgErrorKind::InvalidSubcommand, t));
    }
    if (st.command == 0 || st.command == 1 || st.command == 4) && st.positional.is_none() {
        st.positional = Some(owned(t));
        assert(st.model() =~= ArgsModel { positional: Some(t@), ..old(st).model() });
        return Ok(());
    }
    Err(fail(ArgErrorKind::UnexpectedArgument, t))
}

fn read_arg(st: &mut ArgState, t: &str) -> (r: Result<(), ArgError>)
    requires
        old(st).wf(),
    ensures
        reached(*final(st), r, step(old(st).model(), t@)),
{
    let chars = chars_of(t);
    let n = chars.len();
    match st.pending {
        Some(o) => {
            if n > 1 && chars[0] == '-' {
                return Err(fail(ArgErrorKind::MissingValue, opt_label(o)));
            }
            return set_opt(st, o, owned(t));
        },
        None => {},
    }
    if st.escaped {
        if st.level < 2 {
            return Err(fail(ArgErrorKind::UnexpectedArgument, t));
        }
        return positional_arg(st, t);
    }
    proof {
        reveal_strlit("--");
    }
    if n == 2 && chars[0] == '-' && chars[1] == '-' {
        assert(t@ == "--"@);
        st.escaped = true;
        assert(st.model() =~= ArgsModel { escaped: true, ..old(st).model() });
        return Ok(());
    }
    assert(t@ != "--"@) by {
        if t@ == "--"@ {
            assert(t@.len() == 2 && t@[0] == '-' && t@[1] == '-');
        }
    }
    if n >= 2 && chars[0] == '-' && chars[1] == '-' {
        return long_arg(st, t, &chars);
    }
    if n > 1 && chars[0] == '-' {
        return short_args(st, t, &chars);
    }
    positional_arg(st, t)
}

impl ArgState {
    fn given_value(&self, o: usize) -> (r: Option<String>)
        requires
            self.wf(),
            o < 3,
        ensures
            opt_view(r) == given(self.model(), o as nat),
    {
        if self.opt_level[o] > 0 {
            Some(self.opt_value[o].clone())
        } else {
            None
        }
    }

    fn into_cli(self) -> (r: Result<Cli, ArgError>)
        requires
            self.wf(),
        ensures
            finish(self.model()) matches Ok(m) ==> (r matches Ok(cli) && describes(cli, m)),
            finish(self.model()) matches Err(e) ==> is_error(r, e),
    {
        match self.pending {
            Some(o) => {
                return Err(fail(ArgErrorKind::MissingValue, opt_label(o)));
            },
            None => {},
        }
        if self.level < 2 {
            return Err(fail(ArgErrorKind::MissingSubcommand, ""));
        }
        let ghost m = self.model();
        let global = GlobalArgs {
            database_url: self.given_value(0),
            dir: self.given_value(1),
            table: self.given_value(2),
            yes: self.flag_level[0] > 0,
            allow_checksum_mismatch: self.flag_level[1] > 0,
            allow_destructive: self.flag_level[2] > 0,
            no_color: self.flag_level[3] > 0,
        };
        let command = if self.command == 0 {
            MigrateCommand::Up { target: self.positional }
        } else if self.command == 1 {
            MigrateCommand::Down { target: self.positional }
        } else if self.command == 2 {
            MigrateCommand::Status
        } else if self.command == 3 {
            MigrateCommand::Redo
        } else if self.command == 4 {
            match self.positional {
                Some(name) => MigrateCommand::Create { name },
                None => {
                    return Err(fail(ArgErrorKind::MissingName, "<NAME>"));
                },
            }
        } else {
            MigrateCommand::Init
        };
        let cli = Cli { command: TopCommand::Migrate(command), global };
        assert(describes(cli, m));
        Ok(cli)
    }
}

impl Cli {
    /// Parses a command line whose first element is the program's name: the
    /// command and options it names, or why it is not accepted (a request for help
    /// or the version among them).
    pub fn try_parse_from(args: &[&str]) -> (r: Result<Cli, ArgError>)
        ensures
            parse_args(args_view(args@)) matches Ok(m) ==> (r matches Ok(cli) && describes(cli, m)),
            parse_args(args_view(args@)) matches Err(e) ==> is_error(r, e),
    {
        let ghost all = args_view(args@);
        let ghost ts = if all.len() == 0 {
            all
        } else {
            all.drop_first()
        };
        let start: usize = if args.len() == 0 {
            0
        } else {
            1
        };
        let mut st = ArgState::new();
        let mut i = start;
        while i < args.len()
            invariant
                start <= i <= args@.len(),
                start == (if args@.len() == 0 {
                    0usize
                } else {
                    1usize
                }),
                all == args_view(args@),
                ts == (if all.len() == 0 {
                    all
                } else {
                    all.drop_first()
                }),
                st.wf(),
                parse_tokens(ts.take(i - start)) == ArgsOutcome::Ok(st.model()),
            decreases args@.len() - i,
        {
            let r = read_arg(&mut st, args[i]);
            proof {
                assert(ts.take(i - start + 1).drop_last() == ts.take(i - start));
                assert(ts[i - start] == args@[i as int]@);
            }
            match r {
                Err(e) => {
                    proof {
                        lemma_error_persists(ts, i - start + 1);
                    }
                    return Err(e);
                },
                Ok(()) => {},
            }
            i = i + 1;
        }
        assert(ts.take(i - start) == ts);
        st.into_cli()
    }
}

} // verus!
