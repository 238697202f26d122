//! What a run of `dbgen` does, decided before anything is written.

use crate::decimal::{decimal, decimal_is_numeral, decimal_len, numeral};
use crate::output::{file_rows, Env, FileInfo};
use crate::rng::{continues, seeded_words, seeding_rng, upcoming, RngEngine};
use crate::seed::{hex_text, seed_to_string, Seed};
use crate::timestamp::Timestamp;
use vstd::prelude::*;

pub use crate::format::{CompressionName, FormatName};
pub use crate::rng::RngName;

verus! {

/// Arguments to the `dbgen` CLI program.
pub struct Args {
    /// Keep the qualified name when writing the SQL statements.
    pub qualified: bool,
    /// Override the table name.
    pub table_name: Option<String>,
    /// Output directory.
    pub out_dir: String,
    /// Number of files to generate.
    pub files_count: u32,
    /// Number of INSERT statements per file.
    pub inserts_count: u32,
    /// Number of rows per INSERT statement.
    pub rows_count: u32,
    /// Number of INSERT statements in the last file.
    pub last_file_inserts_count: Option<u32>,
    /// Number of rows of the last INSERT statement of the last file.
    pub last_insert_rows_count: Option<u32>,
    /// Escape backslashes when writing a string.
    pub escape_backslash: bool,
    /// Generation template file.
    pub template: String,
    /// Random number generator seed (should have 64 hex digits).
    pub seed: Option<Seed>,
    /// Number of jobs to run in parallel, default to number of CPUs.
    pub jobs: usize,
    /// Random number generator engine
    pub rng: RngName,
    /// Disable progress bar.
    pub quiet: bool,
    /// Name of the time zone used for timestamps
    pub time_zone: String,
    /// Override the current timestamp (always in UTC).
    pub now: Option<Timestamp>,
    /// Output format
    pub format: FormatName,
    /// Compress data output
    pub compression: Option<CompressionName>,
    /// Compression level (0-9 for gzip and xz, 1-21 for zstd)
    pub compress_level: u8,
    /// Do not generate schema files (the CREATE TABLE *.sql files)
    pub no_schemas: bool,
    /// Do not generate data files (only useful for benchmarking and fuzzing)
    pub no_data: bool,
    /// Initializes the template with these global expressions.
    pub initialize: Vec<String>,
}

/// The default implementation of the argument suitable for *testing*.
impl Default for Args {
    fn default() -> (r: Self)
        ensures
            !r.qualified,
            r.table_name is None,
            r.out_dir@ == Seq::<char>::empty(),
            r.files_count == 1,
            r.inserts_count == 1,
            r.rows_count == 1,
            r.last_file_inserts_count is None,
            r.last_insert_rows_count is None,
            !r.escape_backslash,
            r.template@ == Seq::<char>::empty(),
            r.seed is None,
            r.jobs == 0,
            r.rng == RngName::Hc128,
            r.quiet,
            r.time_zone@ == "UTC"@,
            r.now is None,
            r.format == FormatName::Sql,
            r.compression is None,
            r.compress_level == 6,
            !r.no_schemas,
            !r.no_data,
            r.initialize@ == Seq::<String>::empty(),
            r.numberable(),
            r.countable(),
    {
        let args = Args {
            qualified: false,
            table_name: None,
            out_dir: String::new(),
            files_count: 1,
            inserts_count: 1,
            rows_count: 1,
            last_file_inserts_count: None,
            last_insert_rows_count: None,
            escape_backslash: false,
            template: String::new(),
            seed: None,
            jobs: 0,
            rng: RngName::Hc128,
            quiet: true,
            time_zone: "UTC".to_owned(),
            now: None,
            format: FormatName::Sql,
            compression: None,
            compress_level: 6,
            no_schemas: false,
            no_data: false,
            initialize: Vec::new(),
        };
        assert(0 * args.rows_per_file() == 0) by (nonlinear_arith);
        args
    }
}

/// The names of a table.
pub struct TableNames {
    /// The name for use in file names.
    pub unique_name: String,
    /// The name with the names of its database and schema.
    pub qualified_name: String,
    /// The name alone.
    pub table: String,
}

/// The work on one data file.
pub struct FileJob {
    /// The generator that the rows are drawn from.
    pub engine: RngEngine,
    /// What is to be written.
    pub info: FileInfo,
    /// The number of the first row.
    pub row_num: u64,
}

/// How a run begins.
pub struct Opening {
    /// What all files have in common.
    pub env: Env,
    /// The name of the schema file, if one is to be written.
    pub schema_file: Option<String>,
    /// The message that tells the seed, if it is to be shown.
    pub seed_message: Option<String>,
}

/// The work of a run.
pub struct Plan {
    /// The generator that the global expressions are drawn from, if there are any.
    pub global_engine: Option<RngEngine>,
    /// The work on the data files, in the order of their numbers.
    pub jobs: Vec<FileJob>,
}

impl Args {
    /// The number of rows of a file that is not the last.
    pub open spec fn rows_per_file(&self) -> int {
        self.inserts_count * self.rows_count
    }

    /// The number of INSERT statements in the last file.
    pub open spec fn last_inserts(&self) -> u32 {
        match self.last_file_inserts_count {
            Some(n) => n,
            None => self.inserts_count,
        }
    }

    /// The number of rows of the last INSERT statement of the last file.
    pub open spec fn last_rows(&self) -> u32 {
        match self.last_insert_rows_count {
            Some(n) => n,
            None => self.rows_count,
        }
    }

    /// The number of rows that the progress bar counts up to.
    pub open spec fn expected_rows(&self) -> int {
        (self.files_count - 1) * self.rows_per_file() + (self.last_inserts() - 1) * self.rows_count
            + self.last_rows()
    }

    /// The data file at position `i`.
    pub open spec fn file_info(&self, i: int) -> FileInfo {
        if i + 1 == self.files_count {
            FileInfo {
                file_index: (i + 1) as u32,
                inserts_count: self.last_inserts(),
                last_insert_rows_count: self.last_rows(),
            }
        } else {
            FileInfo {
                file_index: (i + 1) as u32,
                inserts_count: self.inserts_count,
                last_insert_rows_count: self.rows_count,
            }
        }
    }

    /// The number of the first row of the data file at position `i`.
    pub open spec fn first_row(&self, i: int) -> int {
        i * self.rows_per_file() + 1
    }

    /// All row numbers are numbers of 64 bits.
    pub open spec fn numberable(&self) -> bool {
        self.files_count != 0 ==> self.first_row(self.files_count - 1) <= u64::MAX
    }

    /// There are files and statements to count the rows of, and the number of rows is one of 64
    /// bits.
    pub open spec fn countable(&self) -> bool {
        &&& self.files_count != 0
        &&& self.last_inserts() != 0
        &&& self.expected_rows() <= u64::MAX
    }

    /// Whether all row numbers are numbers of 64 bits.
    pub fn is_numberable(&self) -> (r: bool)
        ensures
            r == self.numberable(),
    {
        self.files_count == 0 || self.compute_earlier_rows() < u64::MAX as u128
    }

    /// Whether there are files and statements to count the rows of, and the number of rows is one
    /// of 64 bits.
    pub fn is_countable(&self) -> (r: bool)
        ensures
            r == self.countable(),
    {
        let inserts: u32 = self.compute_last_inserts();
        if self.files_count == 0 || inserts == 0 {
            return false;
        }
        let full: u128 = (inserts - 1) as u128;
        let rows: u128 = self.rows_count as u128;
        assert(0 <= full * rows <= 0xffff_ffff * 0xffff_ffff) by (nonlinear_arith)
            requires
                0 <= full <= 0xffff_ffff,
                0 <= rows <= 0xffff_ffff,
        ;
        self.compute_earlier_rows() + full * rows + self.compute_last_rows() as u128
            <= u64::MAX as u128
    }

    /// The number of rows of all files but the last.
    fn compute_earlier_rows(&self) -> (r: u128)
        requires
            self.files_count != 0,
        ensures
            r == (self.files_count - 1) * self.rows_per_file(),
            r <= 0xffff_ffff * 0xffff_ffff_ffff_ffff,
    {
        let per_file: u128 = self.compute_rows_per_file() as u128;
        let before: u128 = (self.files_count - 1) as u128;
        assert(0 <= before * per_file <= 0xffff_ffff * 0xffff_ffff_ffff_ffff) by (nonlinear_arith)
            requires
                0 <= before <= 0xffff_ffff,
                0 <= per_file <= 0xffff_ffff_ffff_ffff,
        ;
        before * per_file
    }

    fn compute_rows_per_file(&self) -> (r: u64)
        ensures
            r == self.rows_per_file(),
    {
        let inserts: u64 = self.inserts_count as u64;
        let rows: u64 = self.rows_count as u64;
        assert(0 <= inserts * rows <= 0xffff_ffff * 0xffff_ffff) by (nonlinear_arith)
            requires
                0 <= inserts <= 0xffff_ffff,
                0 <= rows <= 0xffff_ffff,
        ;
        inserts * rows
    }

    fn compute_last_inserts(&self) -> (r: u32)
        ensures
            r == self.last_inserts(),
    {
        match self.last_file_inserts_count {
            Some(n) => n,
            None => self.inserts_count,
        }
    }

    fn compute_last_rows(&self) -> (r: u32)
        ensures
            r == self.last_rows(),
    {
        match self.last_insert_rows_count {
            Some(n) => n,
            None => self.rows_count,
        }
    }

    /// The number of rows of the progress bar, if it is to be shown.
    pub fn total_rows(&self) -> (r: Option<u64>)
        requires
            !self.quiet ==> self.countable(),
        ensures
            r is None <==> self.quiet,
            r matches Some(total_rows) ==> total_rows == self.expected_rows(),
    {
        if self.quiet {
            return None;
        }
        let files: u64 = (self.files_count - 1) as u64;
        let per_file: u64 = self.compute_rows_per_file();
        let inserts: u64 = (self.compute_last_inserts() - 1) as u64;
        let rows: u64 = self.rows_count as u64;
        assert(0 <= files * per_file && 0 <= inserts * rows) by (nonlinear_arith)
            requires
                files >= 0,
                per_file >= 0,
                inserts >= 0,
                rows >= 0,
        ;
        Some(files * per_file + inserts * rows + self.compute_last_rows() as u64)
    }

    fn env(&self, names: TableNames) -> (r: Env)
        ensures
            self.is_env(names, r),
    {
        Env {
            file_num_digits: decimal_len(self.files_count as u128),
            unique_name: names.unique_name,
            qualified_name: if self.qualified {
                names.qualified_name
            } else {
                names.table
            },
            rows_count: self.rows_count,
            escape_backslash: self.escape_backslash,
            format: self.format,
            compression: match self.compression {
                Some(compression) => Some((compression, self.compress_level)),
                None => None,
            },
            no_data: self.no_data,
        }
    }

    /// `env` is what all files of a run with these arguments have in common.
    pub open spec fn is_env(&self, names: TableNames, env: Env) -> bool {
        &&& env.file_num_digits == decimal(self.files_count as nat).len()
        &&& env.unique_name == names.unique_name
        &&& env.qualified_name == if self.qualified {
            names.qualified_name
        } else {
            names.table
        }
        &&& env.rows_count == self.rows_count
        &&& env.escape_backslash == self.escape_backslash
        &&& env.format == self.format
        &&& env.compression == match self.compression {
            Some(compression) => Some((compression, self.compress_level)),
            None => None,
        }
        &&& env.no_data == self.no_data
    }

    /// The number of words that seed the generator of the global expressions.
    pub open spec fn global_words(&self, has_globals: bool) -> nat {
        if has_globals {
            self.rng.words_used()
        } else {
            0
        }
    }

    /// The generator of the data file at position `i`.
    pub open spec fn file_engine(&self, has_globals: bool, words: Map<nat, u32>, i: int)
        -> RngEngine {
        self.rng.engine(words, self.seeded_at(has_globals, i) as nat)
    }

    /// The position of the first word that seeds the generator of the data file at position `i`.
    pub open spec fn seeded_at(&self, has_globals: bool, i: int) -> int {
        self.global_words(has_globals) + i * self.rng.words_used()
    }

    /// `job` is the work on the data file at position `i`.
    pub open spec fn is_job(
        &self,
        has_globals: bool,
        words: Map<nat, u32>,
        i: int,
        job: FileJob,
    ) -> bool {
        &&& job.engine == self.file_engine(has_globals, words, i)
        &&& job.info == self.file_info(i)
        &&& job.row_num == self.first_row(i)
    }

    /// `opening` is how a run with these arguments begins.
    pub open spec fn is_opening(&self, names: TableNames, meta_seed: Seed, opening: Opening) -> bool {
        &&& self.is_env(names, opening.env)
        &&& match opening.schema_file {
            Some(name) => !self.no_schemas && name@ == opening.env.schema_name(),
            None => self.no_schemas,
        }
        &&& match opening.seed_message {
            Some(message) => !self.quiet && message@ == "Using seed: "@ + hex_text(meta_seed@),
            None => self.quiet,
        }
    }

    /// `plan` is the work of a run with these arguments.
    pub open spec fn is_plan(&self, has_globals: bool, meta_seed: Seed, plan: Plan) -> bool {
        let words = seeded_words(meta_seed@);
        &&& match plan.global_engine {
            Some(engine) => has_globals && engine == self.rng.engine(words, 0),
            None => !has_globals,
        }
        &&& plan.jobs@.len() == self.files_count
        &&& forall|i: int|
            0 <= i < self.files_count ==> self.is_job(
                has_globals,
                words,
                i,
                #[trigger] plan.jobs@[i],
            )
    }

    /// The name of the table for use in statements.
    pub open spec fn statement_name(&self, names: TableNames) -> Seq<char> {
        if self.qualified {
            names.qualified_name@
        } else {
            names.table@
        }
    }

    /// The arguments and names ask for the same files: those with the same names, in the same format
    /// and for the same table.
    pub open spec fn asks_for_same_files(
        &self,
        names: TableNames,
        other: Args,
        other_names: TableNames,
    ) -> bool {
        &&& names.unique_name@ == other_names.unique_name@
        &&& self.statement_name(names) == other.statement_name(other_names)
        &&& self.files_count == other.files_count
        &&& self.rows_count == other.rows_count
        &&& self.escape_backslash == other.escape_backslash
        &&& self.format == other.format
        &&& self.compression == other.compression
        &&& self.compression is Some ==> self.compress_level == other.compress_level
        &&& self.no_schemas == other.no_schemas
        &&& self.no_data == other.no_data
    }
}

impl Opening {
    /// The files of two runs have the same names, are written in the same way and through the same
    /// layers, and the schema files have the same content for the same template.
    pub open spec fn writes_like(&self, other: Opening) -> bool {
        &&& forall|index: nat| #[trigger]
            self.env.data_name(index) == other.env.data_name(index)
        &&& self.env.data_sink() == other.env.data_sink()
        &&& self.env.format.formatter(self.env.escape_backslash) == other.env.format.formatter(
            other.env.escape_backslash,
        )
        &&& self.env.rows_count == other.env.rows_count
        &&& self.env.qualified_name@ == other.env.qualified_name@
        &&& match (self.schema_file, other.schema_file) {
            (Some(a), Some(b)) => a@ == b@,
            (None, None) => true,
            _ => false,
        }
        &&& forall|content: Seq<char>| #[trigger]
            self.env.schema_text(content) == other.env.schema_text(content)
    }
}

/// The names of the table of a run: those that override it, and those of the template where none do.
pub fn table_names(overriding: Option<TableNames>, template: TableNames) -> (r: TableNames)
    ensures
        r == match overriding {
            Some(names) => names,
            None => template,
        },
{
    match overriding {
        Some(names) => names,
        None => template,
    }
}

/// Begins a run of the CLI program, where `meta_seed` seeds the generators.
pub fn open_run(args: &Args, names: TableNames, meta_seed: &Seed) -> (r: Opening)
    ensures
        args.is_opening(names, *meta_seed, r),
{
    let env = args.env(names);
    let schema_file = if args.no_schemas {
        None
    } else {
        Some(env.schema_file_name())
    };
    let seed_message = if args.quiet {
        None
    } else {
        let mut message = "Using seed: ".to_owned();
        message.append(seed_to_string(meta_seed).as_str());
        Some(message)
    };
    Opening { env, schema_file, seed_message }
}

/// Plans a run of the CLI program, where `has_globals` tells whether the template has global
/// expressions, and `meta_seed` seeds the generators.
pub fn plan(args: &Args, has_globals: bool, meta_seed: Seed) -> (r: Plan)
    requires
        args.numberable(),
    ensures
        args.is_plan(has_globals, meta_seed, r),
{
    let mut src = seeding_rng(meta_seed);
    let ghost words = seeded_words(meta_seed@);
    let ghost used = args.rng.words_used();
    let global_engine = if has_globals {
        Some(args.rng.create(&mut src))
    } else {
        None
    };
    let ghost base = args.global_words(has_globals);
    assert(continues(words, base, upcoming(src)));

    let per_file: u64 = args.compute_rows_per_file();
    let last_inserts: u32 = args.compute_last_inserts();
    let last_rows: u32 = args.compute_last_rows();
    let files_count: u32 = args.files_count;
    let mut jobs: Vec<FileJob> = Vec::new();
    let mut i: u32 = 0;
    while i < files_count
        invariant
            args.numberable(),
            files_count == args.files_count,
            per_file == args.rows_per_file(),
            last_inserts == args.last_inserts(),
            last_rows == args.last_rows(),
            used == args.rng.words_used(),
            base == args.global_words(has_globals),
            i <= files_count,
            jobs@.len() == i,
            continues(words, (base + i * used) as nat, upcoming(src)),
            forall|j: int|
                0 <= j < i ==> args.is_job(has_globals, words, j, #[trigger] jobs@[j]),
        decreases files_count - i,
    {
        let file_index: u32 = i + 1;
        let info = if file_index == files_count {
            FileInfo {
                file_index,
                inserts_count: last_inserts,
                last_insert_rows_count: last_rows,
            }
        } else {
            FileInfo {
                file_index,
                inserts_count: args.inserts_count,
                last_insert_rows_count: args.rows_count,
            }
        };
        let ghost before = upcoming(src);
        let engine = args.rng.create(&mut src);
        proof {
            let at = (base + i * used) as nat;
            crate::rng::engine_depends_on_words(args.rng, words, at, before, 0);
            assert(at + used == base + (i + 1) * used) by (nonlinear_arith)
                requires
                    at == base + i * used,
            ;
            assert forall|k: nat| #[trigger] upcoming(src)[k] == words[at + used + k] by {
                assert(before[used + k] == words[at + (used + k)]);
            }
            row_numbers_grow(*args, i as int);
        }
        let row_num: u64 = (i as u64) * per_file + 1;
        jobs.push(FileJob { engine, info, row_num });
        i = i + 1;
    }
    Plan { global_engine, jobs }
}

/// The first row number of a file is at most that of the last file.
proof fn row_numbers_grow(args: Args, i: int)
    requires
        0 <= i < args.files_count,
    ensures
        0 <= i * args.rows_per_file(),
        args.first_row(i) <= args.first_row(args.files_count - 1),
{
    let per_file = args.rows_per_file();
    let last = args.files_count - 1;
    let inserts = args.inserts_count as int;
    let rows = args.rows_count as int;
    assert(0 <= inserts * rows) by (nonlinear_arith)
        requires
            0 <= inserts,
            0 <= rows,
    ;
    assert(0 <= i * per_file <= last * per_file) by (nonlinear_arith)
        requires
            0 <= per_file,
            0 <= i <= last,
    ;
}

/// The rows of the first `n` files of a run.
pub open spec fn rows_of_files(args: Args, n: int) -> int
    decreases n,
{
    if n <= 0 {
        0
    } else {
        rows_of_files(args, n - 1) + file_rows(args.rows_count, args.file_info(n - 1))
    }
}

/// A file that is not the last holds the same number of rows as all such files.
proof fn rows_of_full_file(args: Args, i: int)
    requires
        0 <= i < args.files_count - 1,
    ensures
        file_rows(args.rows_count, args.file_info(i)) == args.rows_per_file(),
{
    let inserts = args.inserts_count as int;
    let rows = args.rows_count as int;
    assert(inserts * rows == (inserts - 1) * rows + rows) by (nonlinear_arith);
    assert(inserts == 0 ==> inserts * rows == 0) by (nonlinear_arith);
}

/// The rows of a run are numbered without a gap and without an overlap: the first file starts at
/// one, and each file starts where the files before it end.
pub proof fn rows_are_numbered_in_a_row(args: Args, i: int)
    requires
        0 <= i < args.files_count,
    ensures
        args.first_row(i) == rows_of_files(args, i) + 1,
    decreases i,
{
    let per_file = args.rows_per_file();
    if i > 0 {
        rows_are_numbered_in_a_row(args, i - 1);
        rows_of_full_file(args, i - 1);
        assert(i * per_file == (i - 1) * per_file + per_file) by (nonlinear_arith);
    } else {
        assert(0 * per_file == 0) by (nonlinear_arith);
    }
}

/// The progress bar counts up to the number of rows of all files.
pub proof fn progress_bar_counts_all_rows(args: Args)
    requires
        args.files_count != 0,
        args.last_inserts() != 0,
    ensures
        args.expected_rows() == rows_of_files(args, args.files_count as int),
{
    rows_are_numbered_in_a_row(args, args.files_count - 1);
}

/// No word that seeds the generator of a data file seeds the generator of a later one, nor that of
/// the global expressions.
pub proof fn files_are_seeded_apart(args: Args, has_globals: bool, i: int, j: int)
    requires
        0 <= i < j,
    ensures
        args.global_words(has_globals) <= args.seeded_at(has_globals, i),
        args.seeded_at(has_globals, i) + args.rng.words_used() <= args.seeded_at(has_globals, j),
{
    let used = args.rng.words_used() as int;
    assert(0 <= i * used && i * used + used <= j * used) by (nonlinear_arith)
        requires
            0 <= i < j,
            0 <= used,
    ;
}

/// Runs with the same seed draw their rows from the same generators and number them alike, on
/// whatever number of threads and wherever they write. If they are asked for the same files, these
/// have the same names and are written alike, too.
pub proof fn same_seed_same_rows(
    a: Args,
    b: Args,
    a_names: TableNames,
    b_names: TableNames,
    has_globals: bool,
    meta_seed: Seed,
    a_opening: Opening,
    b_opening: Opening,
    p: Plan,
    q: Plan,
)
    requires
        a.is_opening(a_names, meta_seed, a_opening),
        b.is_opening(b_names, meta_seed, b_opening),
        a.is_plan(has_globals, meta_seed, p),
        b.is_plan(has_globals, meta_seed, q),
        a.rng == b.rng,
        a.files_count == b.files_count,
        a.inserts_count == b.inserts_count,
        a.rows_count == b.rows_count,
        a.last_inserts() == b.last_inserts(),
        a.last_rows() == b.last_rows(),
    ensures
        p.global_engine == q.global_engine,
        p.jobs@ =~= q.jobs@,
        a.asks_for_same_files(a_names, b, b_names) ==> a_opening.writes_like(b_opening),
{
    assert forall|i: int| 0 <= i < p.jobs@.len() implies p.jobs@[i] == q.jobs@[i] by {
        assert(a.is_job(has_globals, seeded_words(meta_seed@), i, p.jobs@[i]));
        assert(b.is_job(has_globals, seeded_words(meta_seed@), i, q.jobs@[i]));
    }
}

/// The work on each data file: it has the number that follows the one before, holds as many statements
/// and rows as asked for, the last file being the only exception, is numbered behind the full files
/// before it, and draws from an engine that is seeded with the words behind those of the engines
/// before it.
pub proof fn each_file_is_planned(
    args: Args,
    has_globals: bool,
    meta_seed: Seed,
    plan: Plan,
    i: int,
)
    requires
        args.is_plan(has_globals, meta_seed, plan),
        0 <= i < args.files_count,
    ensures
        plan.jobs@.len() == args.files_count,
        plan.jobs@[i].info.file_index == i + 1,
        i + 1 < args.files_count ==> plan.jobs@[i].info.inserts_count == args.inserts_count
            && plan.jobs@[i].info.last_insert_rows_count == args.rows_count,
        i + 1 == args.files_count ==> plan.jobs@[i].info.inserts_count == (
        match args.last_file_inserts_count {
            Some(n) => n,
            None => args.inserts_count,
        }) && plan.jobs@[i].info.last_insert_rows_count == (match args.last_insert_rows_count {
            Some(n) => n,
            None => args.rows_count,
        }),
        plan.jobs@[i].row_num == i * (args.inserts_count * args.rows_count) + 1,
        plan.jobs@[i].engine == args.rng.engine(
            seeded_words(meta_seed@),
            if has_globals {
                ((i + 1) * args.rng.words_used()) as nat
            } else {
                (i * args.rng.words_used()) as nat
            },
        ),
        plan.global_engine is Some <==> has_globals,
        plan.global_engine matches Some(engine) ==> engine == args.rng.engine(
            seeded_words(meta_seed@),
            0,
        ),
{
    assert(args.is_job(has_globals, seeded_words(meta_seed@), i, plan.jobs@[i]));
    let used = args.rng.words_used() as int;
    assert((i + 1) * used == used + i * used) by (nonlinear_arith);
}

/// How a run begins: the files have the names asked for and numbers of the width of the greatest one,
/// the rows the format asked for, and a schema file and the seed are there unless asked not to be.
pub proof fn run_opens_as_asked(args: Args, names: TableNames, meta_seed: Seed, opening: Opening)
    requires
        args.is_opening(names, meta_seed, opening),
    ensures
        exists|digits: Seq<char>| #[trigger]
            numeral(digits, args.files_count as int) && opening.env.file_num_digits == digits.len(),
        opening.env.unique_name@ == names.unique_name@,
        args.qualified ==> opening.env.qualified_name@ == names.qualified_name@,
        !args.qualified ==> opening.env.qualified_name@ == names.table@,
        opening.env.rows_count == args.rows_count,
        opening.env.escape_backslash == args.escape_backslash,
        opening.env.format == args.format,
        opening.env.no_data == args.no_data,
        opening.env.compression is Some <==> args.compression is Some,
        opening.env.compression matches Some((compression, level)) ==> args.compression == Some(
            compression,
        ) && level == args.compress_level,
        opening.schema_file is Some <==> !args.no_schemas,
        opening.schema_file matches Some(name) ==> name@ == names.unique_name@ + "-schema.sql"@,
        opening.seed_message is Some <==> !args.quiet,
        opening.seed_message matches Some(message) ==> message@ == "Using seed: "@ + hex_text(
            meta_seed@,
        ),
{
    decimal_is_numeral(args.files_count as nat);
}

/// The progress bar counts up to the rows of all full files, of the full statements of the last file
/// and of its last statement.
pub proof fn expected_rows_add_up(args: Args, last_inserts: u32, last_rows: u32)
    requires
        args.last_file_inserts_count == Some(last_inserts) || args.last_file_inserts_count is None
            && last_inserts == args.inserts_count,
        args.last_insert_rows_count == Some(last_rows) || args.last_insert_rows_count is None
            && last_rows == args.rows_count,
    ensures
        args.expected_rows() == (args.files_count - 1) * (args.inserts_count * args.rows_count) + (
        last_inserts - 1) * args.rows_count + last_rows,
        args.countable() <==> args.files_count != 0 && last_inserts != 0 && args.expected_rows()
            <= u64::MAX,
        args.numberable() <==> args.files_count == 0 || (args.files_count - 1) * (
        args.inserts_count * args.rows_count) < u64::MAX,
{
}

} // verus!
